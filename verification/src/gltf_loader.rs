//! Loading of `.gltf` and `.glb` files into flat vertex and index buffers.
//!
//! A file that cannot be used, whatever is wrong with it, becomes a
//! [`GltfLoadError`]. Nothing here panics. Reading files is left to the
//! caller: [`load_gltf_file`] takes the bytes of the document, and where a
//! buffer lies in a file of its own, the load stops and asks for it.

use vstd::prelude::*;

use crate::gltf_document::{
    accessor_of, accessors_in_range, copy_accessors, copy_blob, copy_buffers,
    copy_meshes, copy_nodes, copy_skins, copy_sparse, copy_views, document_of, drafted,
    holds_floats, holds_indices, holds_joints, indices_read, is_readable, is_vacant,
    joints_read, lists_of, normals_read, open_file, opened, option_items, positions_in_range,
    positions_read, read_draft, read_indices, read_joints, read_normals, read_positions,
    read_tex_coords, read_weights, readable, references_in_range, storage_of,
    tex_coords_read, truncated_header, vacant, weights_read, AccessorDecl, Attribute, BufferDecl,
    Document, Draft, PrimitiveDecl, SparseDecl, SparseStorage, Storage, ViewDecl,
};
use crate::gltf_error::{mode_of, GltfFault, GltfLoadError};
use crate::mesh_assembly::{
    assemble_mesh, assembled, indices_in_range, later_nodes_idle, law_assembled_indices_in_range,
    law_later_nodes_leave_the_skin, lemma_skin_in_range, primitive_specs, skin_specs, LoadedMesh,
    MeshOutcome, MeshResult, MeshSpec,
};
use crate::primitive::{joined_indices, joined_vertices, PrimitiveData, PrimitiveSpec};
use crate::uri::{buffer_origin, locate_buffer, BufferOrigin, BufferSource};

verus! {

/// How the items of an attribute come about.
#[derive(Clone, Copy, Debug, PartialEq, Eq)]
pub enum Access {
    /// They have to be read.
    Read,
    /// There are none to read: the list is empty.
    Vacant,
    /// They are missing, or declared in a way that cannot be asked for.
    Missing,
}

/// How the items of an attribute come about, from where they are stored.
pub open spec fn access_to(
    attribute: Attribute,
    storage: Option<Storage>,
    buffers: Seq<Seq<u8>>,
) -> Access {
    match storage {
        None => Access::Missing,
        Some(s) => if readable(attribute, s, buffers.len()) {
            Access::Read
        } else if vacant(attribute, s, buffers) {
            Access::Vacant
        } else {
            Access::Missing
        },
    }
}

/// How the items of an attribute come about, from where they are stored.
pub fn judge_access(
    attribute: Attribute,
    storage: Option<Storage>,
    buffers: &Vec<Vec<u8>>,
) -> (access: Access)
    ensures
        access == access_to(attribute, storage, lists_of(buffers@)),
{
    match storage {
        None => Access::Missing,
        Some(s) => if is_readable(attribute, s, buffers.len()) {
            Access::Read
        } else if is_vacant(attribute, s, buffers) {
            Access::Vacant
        } else {
            Access::Missing
        },
    }
}

/// The items of an attribute, given what the readers give for it.
pub open spec fn accessed<T>(
    attribute: Attribute,
    storage: Option<Storage>,
    buffers: Seq<Seq<u8>>,
    items: Option<Seq<T>>,
) -> Option<Seq<T>> {
    match access_to(attribute, storage, buffers) {
        Access::Read => items,
        Access::Vacant => Some(seq![]),
        Access::Missing => None,
    }
}

/// What is read of a primitive of a document.
pub open spec fn primitive_data(
    d: Document,
    primitive: PrimitiveDecl,
    buffers: Seq<Seq<u8>>,
) -> PrimitiveSpec {
    let position = storage_of(d, primitive, Attribute::Position);
    let normal = storage_of(d, primitive, Attribute::Normal);
    let tex_coord = storage_of(d, primitive, Attribute::TexCoord);
    let joints = storage_of(d, primitive, Attribute::Joints);
    let weights = storage_of(d, primitive, Attribute::Weights);
    let indices = storage_of(d, primitive, Attribute::Indices);
    PrimitiveSpec {
        mode: mode_of(primitive.mode),
        positions: accessed(
            Attribute::Position,
            position,
            buffers,
            positions_read(position->0, buffers),
        ),
        normals: accessed(
            Attribute::Normal,
            normal,
            buffers,
            normals_read(normal->0, buffers),
        ),
        tex_coords: accessed(
            Attribute::TexCoord,
            tex_coord,
            buffers,
            tex_coords_read(tex_coord->0, buffers),
        ),
        joints: accessed(Attribute::Joints, joints, buffers, joints_read(joints->0, buffers)),
        weights: accessed(
            Attribute::Weights,
            weights,
            buffers,
            weights_read(weights->0, buffers),
        ),
        indices: accessed(
            Attribute::Indices,
            indices,
            buffers,
            indices_read(indices->0, buffers),
        ),
    }
}

/// Whether an attribute of a primitive has to be read.
pub open spec fn is_read(
    d: Document,
    primitive: PrimitiveDecl,
    attribute: Attribute,
    buffers: Seq<Seq<u8>>,
) -> bool {
    access_to(attribute, storage_of(d, primitive, attribute), buffers) is Read
}

/// Whether what was read of a primitive is what its buffers store, as far as
/// attributes without sparse replacements go.
pub open spec fn as_stored(
    d: Document,
    primitive: PrimitiveDecl,
    buffers: Seq<Seq<u8>>,
    data: PrimitiveSpec,
) -> bool {
    &&& is_read(d, primitive, Attribute::Position, buffers) ==> holds_floats(
        Attribute::Position,
        storage_of(d, primitive, Attribute::Position)->0,
        buffers,
        data.positions,
    )
    &&& is_read(d, primitive, Attribute::Normal, buffers) ==> holds_floats(
        Attribute::Normal,
        storage_of(d, primitive, Attribute::Normal)->0,
        buffers,
        data.normals,
    )
    &&& is_read(d, primitive, Attribute::TexCoord, buffers) ==> holds_floats(
        Attribute::TexCoord,
        storage_of(d, primitive, Attribute::TexCoord)->0,
        buffers,
        data.tex_coords,
    )
    &&& is_read(d, primitive, Attribute::Joints, buffers) ==> holds_joints(
        storage_of(d, primitive, Attribute::Joints)->0,
        buffers,
        data.joints,
    )
    &&& is_read(d, primitive, Attribute::Weights, buffers) ==> holds_floats(
        Attribute::Weights,
        storage_of(d, primitive, Attribute::Weights)->0,
        buffers,
        data.weights,
    )
    &&& is_read(d, primitive, Attribute::Indices, buffers) ==> holds_indices(
        storage_of(d, primitive, Attribute::Indices)->0,
        buffers,
        data.indices,
    )
}

/// The declarations of a document that say how its primitives are stored.
struct Layout {
    views: Vec<ViewDecl>,
    accessors: Vec<AccessorDecl>,
    sparse: Vec<Option<SparseDecl>>,
    meshes: Vec<Vec<PrimitiveDecl>>,
}

impl Layout {
    /// Whether this is the layout of a document whose references all lead
    /// somewhere.
    spec fn describes(&self, d: Document) -> bool {
        &&& self.views@ == d.views
        &&& self.accessors@ == d.accessors
        &&& self.sparse@ == d.sparse
        &&& lists_of(self.meshes@) == d.meshes
        &&& references_in_range(d)
    }

    /// Where the items of an attribute of a primitive are stored.
    fn locate(
        &self,
        Ghost(d): Ghost<Document>,
        primitive: PrimitiveDecl,
        attribute: Attribute,
    ) -> (storage: Option<Storage>)
        requires
            self.describes(d),
            accessors_in_range(primitive, d.accessors.len()),
        ensures
            storage == storage_of(d, primitive, attribute),
    {
        match accessor_of(primitive, attribute) {
            None => None,
            Some(a) => {
                assert(d.accessors[a as int].view matches Some(v) ==> v < d.views.len());
                assert(d.sparse[a as int] matches Some(list) ==> list.index_view < d.views.len());
                let accessor = self.accessors[a];
                let view = match accessor.view {
                    Some(v) => Some(self.views[v]),
                    None => None,
                };
                let sparse = match self.sparse[a] {
                    Some(list) => Some(
                        SparseStorage {
                            list,
                            index_view: self.views[list.index_view],
                            value_view: self.views[list.value_view],
                        },
                    ),
                    None => None,
                };
                Some(Storage { accessor, view, sparse })
            },
        }
    }
}

/// Reads a primitive of a mesh.
fn read_primitive(
    file: &gltf::Gltf,
    layout: &Layout,
    m: usize,
    p: usize,
    buffers: &Vec<Vec<u8>>,
) -> (data: PrimitiveData)
    requires
        document_of(*file) is Some,
        layout.describes(document_of(*file)->0),
        m < layout.meshes@.len(),
        p < layout.meshes@[m as int]@.len(),
    ensures
        data@ == primitive_data(
            document_of(*file)->0,
            document_of(*file)->0.meshes[m as int][p as int],
            lists_of(buffers@),
        ),
        as_stored(
            document_of(*file)->0,
            document_of(*file)->0.meshes[m as int][p as int],
            lists_of(buffers@),
            data@,
        ),
{
    let ghost d = document_of(*file)->0;
    let primitive = layout.meshes[m][p];
    assert(d.meshes[m as int] == layout.meshes@[m as int]@);
    assert(d.meshes[m as int][p as int] == primitive);
    let position = layout.locate(Ghost(d), primitive, Attribute::Position);
    let normal = layout.locate(Ghost(d), primitive, Attribute::Normal);
    let tex_coord = layout.locate(Ghost(d), primitive, Attribute::TexCoord);
    let joints = layout.locate(Ghost(d), primitive, Attribute::Joints);
    let weights = layout.locate(Ghost(d), primitive, Attribute::Weights);
    let indices = layout.locate(Ghost(d), primitive, Attribute::Indices);
    PrimitiveData {
        mode: mode_of(primitive.mode),
        positions: match judge_access(Attribute::Position, position, buffers) {
            Access::Read => read_positions(file, m, p, buffers),
            Access::Vacant => Some(Vec::new()),
            Access::Missing => None,
        },
        normals: match judge_access(Attribute::Normal, normal, buffers) {
            Access::Read => read_normals(file, m, p, buffers),
            Access::Vacant => Some(Vec::new()),
            Access::Missing => None,
        },
        tex_coords: match judge_access(Attribute::TexCoord, tex_coord, buffers) {
            Access::Read => read_tex_coords(file, m, p, buffers),
            Access::Vacant => Some(Vec::new()),
            Access::Missing => None,
        },
        joints: match judge_access(Attribute::Joints, joints, buffers) {
            Access::Read => read_joints(file, m, p, buffers),
            Access::Vacant => Some(Vec::new()),
            Access::Missing => None,
        },
        weights: match judge_access(Attribute::Weights, weights, buffers) {
            Access::Read => read_weights(file, m, p, buffers),
            Access::Vacant => Some(Vec::new()),
            Access::Missing => None,
        },
        indices: match judge_access(Attribute::Indices, indices, buffers) {
            Access::Read => read_indices(file, m, p, buffers),
            Access::Vacant => Some(Vec::new()),
            Access::Missing => None,
        },
    }
}

/// What is read of each primitive of the first mesh.
pub open spec fn primitive_list(d: Document, buffers: Seq<Seq<u8>>) -> Seq<PrimitiveSpec> {
    Seq::new(d.meshes[0].len(), |p: int| primitive_data(d, d.meshes[0][p], buffers))
}

/// Where a load stands.
pub enum LoadSpec {
    /// The next buffer lies in a file of its own.
    NeedFile(LoadState),
    /// The part is loaded.
    Loaded(MeshSpec),
    /// The part cannot be used.
    Failed(GltfFault),
    /// The part has more vertices than indices can tell apart.
    Oversized,
}

/// A load that waits for the file at `relative`, to become the buffer after
/// those in `buffers`.
pub struct LoadState {
    pub path: Seq<char>,
    pub document: Document,
    pub buffers: Seq<Seq<u8>>,
    pub relative: Seq<char>,
}

/// The end of a load.
pub open spec fn finished(result: MeshResult) -> LoadSpec {
    match result {
        MeshResult::Loaded(mesh) => LoadSpec::Loaded(mesh),
        MeshResult::Failed(fault) => LoadSpec::Failed(fault),
        MeshResult::Oversized => LoadSpec::Oversized,
    }
}

/// What is read of the primitives of the first mesh, if there is a mesh.
pub open spec fn primitives_read(d: Document, buffers: Seq<Seq<u8>>) -> Option<Seq<PrimitiveSpec>> {
    if d.meshes.len() > 0 {
        Some(primitive_list(d, buffers))
    } else {
        None
    }
}

/// What a document with all its buffers loads to.
pub open spec fn loaded(path: Seq<char>, d: Document, buffers: Seq<Seq<u8>>) -> LoadSpec {
    finished(assembled(path, d.nodes, d.skins, primitives_read(d, buffers)))
}

/// How a load goes on once buffer after buffer is there: with the next buffer,
/// or with the meshes after the last.
pub open spec fn continued(path: Seq<char>, d: Document, buffers: Seq<Seq<u8>>) -> LoadSpec
    decreases d.buffers.len() - buffers.len(),
{
    if buffers.len() < d.buffers.len() {
        match buffer_origin(d.buffers[buffers.len() as int].uri, d.blob) {
            BufferOrigin::Nowhere(reason) => LoadSpec::Failed(
                GltfFault::BufferSource { path, buffer_index: buffers.len() as usize, reason },
            ),
            BufferOrigin::File(relative) => LoadSpec::NeedFile(
                LoadState { path, document: d, buffers, relative },
            ),
            BufferOrigin::Data(data) => if data.len() < d.buffers[buffers.len() as int].length {
                LoadSpec::Failed(too_short(path, d, buffers, data))
            } else {
                continued(path, d, buffers.push(data))
            },
        }
    } else {
        loaded(path, d, buffers)
    }
}

/// The buffers that are there, and after them those whose data the document
/// itself gives, up to the first that it does not.
pub open spec fn collected(d: Document, buffers: Seq<Seq<u8>>) -> Seq<Seq<u8>>
    decreases d.buffers.len() - buffers.len(),
{
    if buffers.len() < d.buffers.len() {
        match buffer_origin(d.buffers[buffers.len() as int].uri, d.blob) {
            BufferOrigin::Data(data) => collected(d, buffers.push(data)),
            _ => buffers,
        }
    } else {
        buffers
    }
}

/// Whether buffer `i` of a list is the data that the document gives for it, and
/// holds as many bytes as declared.
pub open spec fn given_by_document(d: Document, lists: Seq<Seq<u8>>, i: int) -> bool {
    &&& buffer_origin(d.buffers[i].uri, d.blob) == BufferOrigin::Data(lists[i])
    &&& lists[i].len() >= d.buffers[i].length
}

/// Whether a list begins with the buffers that were there and goes on with
/// those that the document gives.
pub open spec fn extends(d: Document, buffers: Seq<Seq<u8>>, lists: Seq<Seq<u8>>) -> bool {
    &&& buffers.is_prefix_of(lists)
    &&& forall|i: int|
        buffers.len() <= i < lists.len() ==> #[trigger] given_by_document(d, lists, i)
}

/// The fault of a buffer that holds fewer bytes than declared.
pub open spec fn too_short(
    path: Seq<char>,
    d: Document,
    buffers: Seq<Seq<u8>>,
    data: Seq<u8>,
) -> GltfFault {
    GltfFault::BufferTooShort {
        path,
        buffer_index: buffers.len() as usize,
        declared_len: d.buffers[buffers.len() as int].length,
        actual_len: data.len() as usize,
    }
}

/// Why a file could not be read: the path as shown, and the error.
#[derive(Debug)]
pub struct ReadFailure {
    pub shown_path: String,
    pub error: String,
}

/// How a load goes on from a file that was read, or could not be.
pub open spec fn resumed(
    state: LoadState,
    reply: Result<Seq<u8>, (Seq<char>, Seq<char>)>,
) -> LoadSpec {
    let d = state.document;
    match reply {
        Err((shown_path, error)) => LoadSpec::Failed(
            GltfFault::BufferSource {
                path: state.path,
                buffer_index: state.buffers.len() as usize,
                reason: "failed to read external buffer '"@ + shown_path + "': "@ + error,
            },
        ),
        Ok(data) => if data.len() < d.buffers[state.buffers.len() as int].length {
            LoadSpec::Failed(too_short(state.path, d, state.buffers, data))
        } else {
            continued(state.path, d, state.buffers.push(data))
        },
    }
}

/// Whether a file parses and passes validation.
pub open spec fn parses(bytes: Seq<u8>) -> bool {
    &&& !truncated_header(bytes)
    &&& drafted(bytes) matches Ok(draft) && positions_in_range(draft)
    &&& opened(bytes) is Ok
}

/// How a load starts, from the bytes of a file or the error of reading it.
pub open spec fn started(path: Seq<char>, contents: Result<Seq<u8>, Seq<char>>) -> LoadSpec {
    match contents {
        Err(source) => LoadSpec::Failed(GltfFault::Parse { path, source }),
        Ok(bytes) => if truncated_header(bytes) {
            LoadSpec::Failed(GltfFault::Parse { path, source: "failed to fill whole buffer"@ })
        } else {
            match drafted(bytes) {
                Err(source) => LoadSpec::Failed(GltfFault::Parse { path, source }),
                Ok(draft) => if !positions_in_range(draft) {
                    LoadSpec::Failed(
                        GltfFault::Parse {
                            path,
                            source: "invalid glTF: POSITION accessor: Index out of bounds;"@,
                        },
                    )
                } else {
                    match opened(bytes) {
                        Err(source) => LoadSpec::Failed(GltfFault::Parse { path, source }),
                        Ok(d) => continued(path, d, seq![]),
                    }
                },
            }
        },
    }
}

/// However many buffers are already there, every index of the mesh that a load
/// ends with names one of its vertices.
pub proof fn law_loaded_indices_in_range(path: Seq<char>, d: Document, buffers: Seq<Seq<u8>>)
    ensures
        continued(path, d, buffers) matches LoadSpec::Loaded(mesh) ==> indices_in_range(mesh),
    decreases d.buffers.len() - buffers.len(),
{
    if buffers.len() < d.buffers.len() {
        match buffer_origin(d.buffers[buffers.len() as int].uri, d.blob) {
            BufferOrigin::Data(data) => {
                law_loaded_indices_in_range(path, d, buffers.push(data));
            },
            _ => {},
        }
    } else {
        law_assembled_indices_in_range(path, d.nodes, d.skins, primitives_read(d, buffers));
    }
}

/// A load that does not fail over a buffer has collected them one after the
/// other, none left out. If it waits for a file, that is the one that the next
/// buffer names; if it ends, every buffer of the document is there, and the mesh
/// is what the document loads to with exactly these.
pub proof fn law_buffers_are_collected_in_order(
    path: Seq<char>,
    d: Document,
    buffers: Seq<Seq<u8>>,
)
    requires
        buffers.len() <= d.buffers.len(),
    ensures
        match continued(path, d, buffers) {
            LoadSpec::NeedFile(state) => {
                &&& state.path == path
                &&& state.document == d
                &&& state.buffers == collected(d, buffers)
                &&& state.buffers.len() < d.buffers.len()
                &&& extends(d, buffers, state.buffers)
                &&& buffer_origin(d.buffers[state.buffers.len() as int].uri, d.blob)
                    == BufferOrigin::File(state.relative)
            },
            LoadSpec::Loaded(mesh) => {
                let lists = collected(d, buffers);
                &&& lists.len() == d.buffers.len()
                &&& extends(d, buffers, lists)
                &&& loaded(path, d, lists) == LoadSpec::Loaded(mesh)
            },
            _ => true,
        },
    decreases d.buffers.len() - buffers.len(),
{
    if buffers.len() < d.buffers.len() {
        match buffer_origin(d.buffers[buffers.len() as int].uri, d.blob) {
            BufferOrigin::Data(data) => {
                let more = buffers.push(data);
                law_buffers_are_collected_in_order(path, d, more);
                let lists = collected(d, more);
                if more.is_prefix_of(lists) && data.len() >= d.buffers[buffers.len() as int].length {
                    assert(lists[buffers.len() as int] == more[buffers.len() as int]);
                    assert(given_by_document(d, lists, buffers.len() as int));
                    assert(buffers == lists.take(buffers.len() as int));
                }
            },
            _ => {},
        }
    }
}

/// Whether `more` is `d` with further meshes after its own: with whatever
/// accessors, views, skins and nodes these need, but with the same buffers, and
/// with no further node that has a say in the skin of the first mesh.
pub open spec fn adds_later_meshes(d: Document, more: Document) -> bool {
    &&& d.meshes.len() > 0
    &&& d.meshes.is_prefix_of(more.meshes)
    &&& d.accessors.is_prefix_of(more.accessors)
    &&& d.sparse.is_prefix_of(more.sparse)
    &&& d.views.is_prefix_of(more.views)
    &&& d.skins.is_prefix_of(more.skins)
    &&& d.nodes.is_prefix_of(more.nodes)
    &&& later_nodes_idle(d.nodes, more.nodes.skip(d.nodes.len() as int))
    &&& more.buffers == d.buffers
    &&& more.blob == d.blob
}

/// Whether two loads wait for the same file with the same buffers, the second
/// for a document with further meshes.
pub open spec fn waits_alike(a: LoadState, b: LoadState) -> bool {
    &&& a.path == b.path
    &&& a.buffers == b.buffers
    &&& a.relative == b.relative
    &&& references_in_range(a.document)
    &&& adds_later_meshes(a.document, b.document)
}

/// Whether two loads stand alike: both wait for the same file, or both have
/// ended in the same way.
pub open spec fn stands_alike(a: LoadSpec, b: LoadSpec) -> bool {
    match (a, b) {
        (LoadSpec::NeedFile(x), LoadSpec::NeedFile(y)) => waits_alike(x, y),
        _ => a == b,
    }
}

/// Further meshes leave what is read of a primitive as it is.
proof fn lemma_later_meshes_leave_a_primitive(
    d: Document,
    more: Document,
    p: int,
    buffers: Seq<Seq<u8>>,
)
    requires
        references_in_range(d),
        adds_later_meshes(d, more),
        0 <= p < d.meshes[0].len(),
    ensures
        more.meshes[0] == d.meshes[0],
        primitive_data(more, d.meshes[0][p], buffers) == primitive_data(
            d,
            d.meshes[0][p],
            buffers,
        ),
{
    let primitive = d.meshes[0][p];
    assert(accessors_in_range(primitive, d.accessors.len()));
    assert forall|attribute: Attribute| #[trigger]
        storage_of(more, primitive, attribute) == storage_of(d, primitive, attribute) by {
        if let Some(accessor) = accessor_of(primitive, attribute) {
            let a = accessor as int;
            assert(more.accessors[a] == d.accessors[a]);
            assert(more.sparse[a] == d.sparse[a]);
            assert(d.accessors[a].view matches Some(v) ==> v < d.views.len());
            assert(d.sparse[a] matches Some(list) ==> list.index_view < d.views.len());
        }
    }
}

/// Only the first mesh of a document is loaded: further meshes, and nodes that
/// show only those, leave the outcome as it is.
pub proof fn law_only_the_first_mesh_is_loaded(
    path: Seq<char>,
    d: Document,
    more: Document,
    buffers: Seq<Seq<u8>>,
)
    requires
        references_in_range(d),
        adds_later_meshes(d, more),
    ensures
        loaded(path, more, buffers) == loaded(path, d, buffers),
{
    assert(more.meshes[0] == d.meshes[0]);
    assert forall|p: int| 0 <= p < d.meshes[0].len() implies primitive_list(more, buffers)[p]
        == primitive_list(d, buffers)[p] by {
        lemma_later_meshes_leave_a_primitive(d, more, p, buffers);
    }
    assert(primitive_list(more, buffers) == primitive_list(d, buffers));
    assert(more.nodes == d.nodes + more.nodes.skip(d.nodes.len() as int));
    law_later_nodes_leave_the_skin(d.nodes, more.nodes.skip(d.nodes.len() as int));
    lemma_skin_in_range(d.nodes, d.skins.len(), 0);
}

/// Further meshes do not show while buffers are collected either: the load asks
/// for the same files and ends in the same way.
pub proof fn law_later_meshes_leave_the_load(
    path: Seq<char>,
    d: Document,
    more: Document,
    buffers: Seq<Seq<u8>>,
)
    requires
        references_in_range(d),
        adds_later_meshes(d, more),
    ensures
        stands_alike(continued(path, d, buffers), continued(path, more, buffers)),
    decreases d.buffers.len() - buffers.len(),
{
    if buffers.len() < d.buffers.len() {
        match buffer_origin(d.buffers[buffers.len() as int].uri, d.blob) {
            BufferOrigin::Data(data) => {
                law_later_meshes_leave_the_load(path, d, more, buffers.push(data));
            },
            _ => {},
        }
    } else {
        law_only_the_first_mesh_is_loaded(path, d, more, buffers);
    }
}

/// Loads that wait alike stand alike after the same reply.
pub proof fn law_later_meshes_leave_the_resumed_load(
    a: LoadState,
    b: LoadState,
    reply: Result<Seq<u8>, (Seq<char>, Seq<char>)>,
)
    requires
        waits_alike(a, b),
    ensures
        stands_alike(resumed(a, reply), resumed(b, reply)),
{
    if let Ok(data) = reply {
        law_later_meshes_leave_the_load(a.path, a.document, b.document, a.buffers.push(data));
    }
}

/// Two files that both parse load alike if the second holds what the first
/// does, with further meshes after its own.
pub proof fn law_files_with_later_meshes_load_alike(path: Seq<char>, a: Seq<u8>, b: Seq<u8>)
    ensures
        parses(a) && parses(b) && references_in_range(opened(a)->Ok_0) && adds_later_meshes(
            opened(a)->Ok_0,
            opened(b)->Ok_0,
        ) ==> stands_alike(started(path, Ok(a)), started(path, Ok(b))),
{
    if parses(a) && parses(b) && references_in_range(opened(a)->Ok_0) && adds_later_meshes(
        opened(a)->Ok_0,
        opened(b)->Ok_0,
    ) {
        law_later_meshes_leave_the_load(path, opened(a)->Ok_0, opened(b)->Ok_0, seq![]);
    }
}

/// Whether what is read of every primitive is what the buffers store.
pub open spec fn all_as_stored(d: Document, buffers: Seq<Seq<u8>>) -> bool {
    forall|p: int|
        0 <= p < d.meshes[0].len() ==> as_stored(
            d,
            d.meshes[0][p],
            buffers,
            #[trigger] primitive_list(d, buffers)[p],
        )
}

/// Whether a mesh is made of the primitives of a document, one after the
/// other, as its buffers store them. All buffers of the document are there.
pub open spec fn made_of(mesh: MeshSpec, d: Document, buffers: Seq<Seq<u8>>) -> bool {
    &&& buffers.len() == d.buffers.len()
    &&& d.meshes.len() > 0
    &&& mesh.vertices == joined_vertices(primitive_list(d, buffers))
    &&& mesh.indices == joined_indices(primitive_list(d, buffers))
    &&& all_as_stored(d, buffers)
}

/// Whether a mesh is what a document loads to once its buffers are collected,
/// from those that are there on, and is made of what these store.
pub open spec fn loaded_from(
    mesh: MeshSpec,
    path: Seq<char>,
    d: Document,
    buffers: Seq<Seq<u8>>,
) -> bool {
    let lists = collected(d, buffers);
    &&& extends(d, buffers, lists)
    &&& loaded(path, d, lists) == LoadSpec::Loaded(mesh)
    &&& made_of(mesh, d, lists)
}

/// Where a load stands.
pub enum LoadStep {
    /// A file has to be read: see [`GltfLoad::relative_path`].
    NeedFile(GltfLoad),
    /// The part is loaded.
    Loaded(LoadedMesh),
    /// The part cannot be used.
    Failed(GltfLoadError),
    /// The part has more vertices than indices can tell apart.
    Oversized,
}

/// A load that waits for a file.
pub struct GltfLoad {
    path: String,
    file: gltf::Gltf,
    blob: Option<Vec<u8>>,
    declared: Vec<BufferDecl>,
    buffers: Vec<Vec<u8>>,
    relative: String,
}

impl View for GltfLoad {
    type V = LoadState;

    closed spec fn view(&self) -> LoadState {
        LoadState {
            path: self.path@,
            document: document_of(self.file)->0,
            buffers: lists_of(self.buffers@),
            relative: self.relative@,
        }
    }
}

impl View for LoadStep {
    type V = LoadSpec;

    open spec fn view(&self) -> LoadSpec {
        match *self {
            LoadStep::NeedFile(load) => LoadSpec::NeedFile(load@),
            LoadStep::Loaded(mesh) => LoadSpec::Loaded(mesh@),
            LoadStep::Failed(error) => LoadSpec::Failed(error@),
            LoadStep::Oversized => LoadSpec::Oversized,
        }
    }
}

/// Reads the primitives of the first mesh.
fn read_primitives(file: &gltf::Gltf, layout: &Layout, buffers: &Vec<Vec<u8>>) -> (list: Vec<
    PrimitiveData,
>)
    requires
        document_of(*file) is Some,
        layout.describes(document_of(*file)->0),
        layout.meshes@.len() > 0,
    ensures
        primitive_specs(list@) == primitive_list(document_of(*file)->0, lists_of(buffers@)),
        all_as_stored(document_of(*file)->0, lists_of(buffers@)),
{
    let ghost d = document_of(*file)->0;
    let ghost lists = lists_of(buffers@);
    let count: usize = layout.meshes[0].len();
    assert(d.meshes[0] == layout.meshes@[0]@);
    let mut list: Vec<PrimitiveData> = Vec::with_capacity(count);
    let mut p: usize = 0;
    while p < count
        invariant
            layout.meshes@.len() > 0,
            count == layout.meshes@[0]@.len(),
            count == d.meshes[0].len(),
            p <= count,
            document_of(*file) == Some(d),
            layout.describes(d),
            lists == lists_of(buffers@),
            primitive_specs(list@) == primitive_list(d, lists).take(p as int),
            forall|q: int|
                0 <= q < p ==> as_stored(
                    d,
                    d.meshes[0][q],
                    lists,
                    #[trigger] primitive_list(d, lists)[q],
                ),
        decreases count - p,
    {
        let data = read_primitive(file, layout, 0, p, buffers);
        assert(primitive_list(d, lists)[p as int] == data@);
        assert(primitive_specs(list@.push(data)) == primitive_specs(list@).push(data@));
        list.push(data);
        p += 1;
    }
    assert(primitive_list(d, lists).take(p as int) == primitive_list(d, lists));
    list
}

/// Loads the first mesh of a document whose buffers are all there.
fn finish(path: &str, file: &gltf::Gltf, buffers: &Vec<Vec<u8>>) -> (step: LoadStep)
    requires
        document_of(*file) is Some,
        references_in_range(document_of(*file)->0),
        buffers@.len() == document_of(*file)->0.buffers.len(),
    ensures
        step@ == loaded(path@, document_of(*file)->0, lists_of(buffers@)),
        step matches LoadStep::Loaded(mesh) ==> made_of(
            mesh@,
            document_of(*file)->0,
            lists_of(buffers@),
        ),
{
    let ghost d = document_of(*file)->0;
    let layout = Layout {
        views: copy_views(file),
        accessors: copy_accessors(file),
        sparse: copy_sparse(file),
        meshes: copy_meshes(file),
    };
    let primitives = if layout.meshes.len() > 0 {
        Some(read_primitives(file, &layout, buffers))
    } else {
        None
    };
    let nodes = copy_nodes(file);
    let skins = copy_skins(file);
    assert(skin_specs(skins@) == d.skins) by {
        assert forall|s: int| 0 <= s < d.skins.len() implies skin_specs(skins@)[s] == d.skins[s] by {
            assert(skins@[s]@.len() == d.skins[s].len());
        }
    }
    match assemble_mesh(path, &nodes, &skins, &primitives) {
        MeshOutcome::Loaded(mesh) => LoadStep::Loaded(mesh),
        MeshOutcome::Failed(e) => LoadStep::Failed(e),
        MeshOutcome::Oversized => LoadStep::Oversized,
    }
}

/// Requires that a buffer holds as many bytes as declared.
pub fn check_buffer(
    path: &str,
    buffer_index: usize,
    declared_len: usize,
    data: &Vec<u8>,
) -> (r: Result<(), GltfLoadError>)
    ensures
        match r {
            Ok(()) => data@.len() >= declared_len,
            Err(e) => data@.len() < declared_len && e@ == (GltfFault::BufferTooShort {
                path: path@,
                buffer_index,
                declared_len,
                actual_len: data@.len() as usize,
            }),
        },
{
    if data.len() < declared_len {
        return Err(
            GltfLoadError::BufferTooShort {
                path: path.to_string(),
                buffer_index,
                declared_len,
                actual_len: data.len(),
            },
        );
    }
    Ok(())
}

/// Whether the plain parts of a load are those of its document.
spec fn load_matches(
    file: gltf::Gltf,
    blob: Option<Vec<u8>>,
    declared: Seq<BufferDecl>,
    buffers: Seq<Vec<u8>>,
) -> bool {
    &&& document_of(file) is Some
    &&& references_in_range(document_of(file)->0)
    &&& option_items(blob) == document_of(file)->0.blob
    &&& declared.len() == document_of(file)->0.buffers.len()
    &&& forall|i: int|
        0 <= i < declared.len() ==> (#[trigger] declared[i])@ == document_of(file)->0.buffers[i]
    &&& buffers.len() <= declared.len()
}

/// Collects buffers up to the first that lies in a file of its own, and loads
/// the document if there is none.
fn proceed(
    path: String,
    file: gltf::Gltf,
    blob: Option<Vec<u8>>,
    declared: Vec<BufferDecl>,
    start: Vec<Vec<u8>>,
) -> (step: LoadStep)
    requires
        load_matches(file, blob, declared@, start@),
    ensures
        step@ == continued(path@, document_of(file)->0, lists_of(start@)),
        step matches LoadStep::Loaded(mesh) ==> loaded_from(
            mesh@,
            path@,
            document_of(file)->0,
            lists_of(start@),
        ),
        step matches LoadStep::Loaded(mesh) ==> indices_in_range(mesh@),
{
    let ghost d = document_of(file)->0;
    proof {
        law_loaded_indices_in_range(path@, d, lists_of(start@));
        law_buffers_are_collected_in_order(path@, d, lists_of(start@));
    }
    let mut buffers = start;
    while buffers.len() < declared.len()
        invariant
            load_matches(file, blob, declared@, buffers@),
            d == document_of(file)->0,
            continued(path@, d, lists_of(start@)) == continued(path@, d, lists_of(buffers@)),
            collected(d, lists_of(start@)) == collected(d, lists_of(buffers@)),
        decreases declared@.len() - buffers@.len(),
    {
        let buffer_index: usize = buffers.len();
        assert(declared@[buffer_index as int]@ == d.buffers[buffer_index as int]);
        let uri = match &declared[buffer_index].uri {
            Some(uri) => Some(uri.as_str()),
            None => None,
        };
        let chunk = match &blob {
            Some(bytes) => Some(bytes.as_slice()),
            None => None,
        };
        match locate_buffer(uri, chunk) {
            BufferSource::Nowhere(reason) => {
                return LoadStep::Failed(
                    GltfLoadError::BufferSource { path, buffer_index, reason },
                );
            },
            BufferSource::File(relative) => {
                return LoadStep::NeedFile(
                    GltfLoad { path, file, blob, declared, buffers, relative },
                );
            },
            BufferSource::Data(data) => {
                if let Err(e) = check_buffer(
                    path.as_str(),
                    buffer_index,
                    declared[buffer_index].length,
                    &data,
                ) {
                    return LoadStep::Failed(e);
                }
                assert(lists_of(buffers@).push(data@) == lists_of(buffers@.push(data)));
                buffers.push(data);
            },
        }
    }
    finish(path.as_str(), &file, &buffers)
}

/// Whether the bytes are a binary glTF file whose header declares a length
/// that does not even cover the header.
pub fn has_truncated_header(bytes: &[u8]) -> (b: bool)
    ensures
        b == truncated_header(bytes@),
{
    if bytes.len() < 12 {
        return false;
    }
    assert(bytes@.take(4) == seq![bytes@[0], bytes@[1], bytes@[2], bytes@[3]]);
    if bytes[0] != 0x67 || bytes[1] != 0x6c || bytes[2] != 0x54 || bytes[3] != 0x46 {
        let ghost magic = seq![0x67u8, 0x6cu8, 0x54u8, 0x46u8];
        assert(bytes@.take(4)[0] != magic[0] || bytes@.take(4)[1] != magic[1] || bytes@.take(4)[2]
            != magic[2] || bytes@.take(4)[3] != magic[3]);
        return false;
    }
    let two: bool = bytes[4] == 2 && bytes[5] == 0 && bytes[6] == 0 && bytes[7] == 0;
    let short: bool = bytes[8] < 12 && bytes[9] == 0 && bytes[10] == 0 && bytes[11] == 0;
    two && short
}

/// Whether every position reference of a draft names an accessor.
pub fn are_positions_in_range(draft: &Draft) -> (b: bool)
    ensures
        b == positions_in_range(draft@),
{
    let mut m: usize = 0;
    while m < draft.positions.len()
        invariant
            m <= draft.positions@.len(),
            forall|i: int, j: int|
                0 <= i < m && 0 <= j < draft@.positions[i].len() ==> (
                #[trigger] draft@.positions[i][j] matches Some(accessor) ==> accessor
                    < draft.accessor_count),
        decreases draft.positions@.len() - m,
    {
        let references = &draft.positions[m];
        assert(draft@.positions[m as int] == references@);
        let mut p: usize = 0;
        while p < references.len()
            invariant
                p <= references@.len(),
                m < draft.positions@.len(),
                draft@.positions[m as int] == references@,
                forall|j: int|
                    0 <= j < p ==> (#[trigger] references@[j] matches Some(accessor) ==> accessor
                        < draft.accessor_count),
            decreases references@.len() - p,
        {
            if let Some(accessor) = references[p] {
                if accessor >= draft.accessor_count {
                    assert(draft@.positions[m as int][p as int] == Some(accessor));
                    return false;
                }
            }
            p += 1;
        }
        m += 1;
    }
    true
}

/// The failure of a file that is no usable glTF.
fn parse_failure(path: &str, source: String) -> (step: LoadStep)
    ensures
        step@ == LoadSpec::Failed(GltfFault::Parse { path: path@, source: source@ }),
{
    LoadStep::Failed(GltfLoadError::Parse { path: path.to_string(), source })
}

/// Loads a part from the contents of its `.gltf` or `.glb` file, or from the
/// error that came of reading it. Of the document, the first mesh is loaded,
/// with all its primitives. In a file that parses, every reference leads
/// somewhere.
pub fn load_gltf_file(path: &str, contents: Result<Vec<u8>, String>) -> (step: LoadStep)
    ensures
        step@ == started(
            path@,
            match contents {
                Ok(bytes) => Ok(bytes@),
                Err(e) => Err(e@),
            },
        ),
        contents matches Ok(bytes) ==> parses(bytes@) ==> references_in_range(
            opened(bytes@)->Ok_0,
        ),
        step matches LoadStep::Loaded(mesh) ==> contents is Ok && loaded_from(
            mesh@,
            path@,
            opened(contents->Ok_0@)->Ok_0,
            seq![],
        ),
        step matches LoadStep::Loaded(mesh) ==> indices_in_range(mesh@),
{
    let bytes = match contents {
        Ok(bytes) => bytes,
        Err(source) => {
            return parse_failure(path, source);
        },
    };
    if has_truncated_header(bytes.as_slice()) {
        return parse_failure(path, "failed to fill whole buffer".to_string());
    }
    match read_draft(bytes.as_slice()) {
        Err(source) => {
            return parse_failure(path, source);
        },
        Ok(draft) => {
            if !are_positions_in_range(&draft) {
                return parse_failure(
                    path,
                    "invalid glTF: POSITION accessor: Index out of bounds;".to_string(),
                );
            }
        },
    }
    let file = match open_file(bytes.as_slice()) {
        Ok(file) => file,
        Err(source) => {
            return parse_failure(path, source);
        },
    };
    let blob = copy_blob(&file);
    let declared = copy_buffers(&file);
    let buffers: Vec<Vec<u8>> = Vec::new();
    assert(lists_of(buffers@) == Seq::<Seq<u8>>::empty());
    proceed(path.to_string(), file, blob, declared, buffers)
}

impl GltfLoad {
    /// Whether the load waits for the file that its next buffer names.
    #[verifier::type_invariant]
    spec fn waits(&self) -> bool {
        &&& load_matches(self.file, self.blob, self.declared@, self.buffers@)
        &&& self.buffers@.len() < self.declared@.len()
    }

    /// The path of the file to read, relative to that of the document.
    pub fn relative_path(&self) -> (relative: &str)
        ensures
            relative@ == self@.relative,
    {
        self.relative.as_str()
    }

    /// Goes on with the contents of the file, or with the error that came of
    /// reading it.
    pub fn resume(self, reply: Result<Vec<u8>, ReadFailure>) -> (step: LoadStep)
        ensures
            step@ == resumed(
                self@,
                match reply {
                    Ok(bytes) => Ok(bytes@),
                    Err(failure) => Err((failure.shown_path@, failure.error@)),
                },
            ),
            step matches LoadStep::Loaded(mesh) ==> reply is Ok && loaded_from(
                mesh@,
                self@.path,
                self@.document,
                self@.buffers.push(reply->Ok_0@),
            ),
            step matches LoadStep::Loaded(mesh) ==> indices_in_range(mesh@),
    {
        proof {
            use_type_invariant(&self);
        }
        let GltfLoad { path, file, blob, declared, mut buffers, relative: _ } = self;
        let buffer_index: usize = buffers.len();
        assert(declared@[buffer_index as int]@ == document_of(
            file,
        )->0.buffers[buffer_index as int]);
        match reply {
            Err(failure) => {
                let mut reason = "failed to read external buffer '".to_string();
                reason.append(failure.shown_path.as_str());
                reason.append("': ");
                reason.append(failure.error.as_str());
                LoadStep::Failed(GltfLoadError::BufferSource { path, buffer_index, reason })
            },
            Ok(data) => {
                if let Err(e) = check_buffer(
                    path.as_str(),
                    buffer_index,
                    declared[buffer_index].length,
                    &data,
                ) {
                    return LoadStep::Failed(e);
                }
                assert(lists_of(buffers@).push(data@) == lists_of(buffers@.push(data)));
                buffers.push(data);
                proceed(path, file, blob, declared, buffers)
            },
        }
    }
}

} // verus!
