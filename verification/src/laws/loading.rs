//! Loading a part file.

use vstd::prelude::*;

use crate::gltf_document::{
    component_size, component_start, drafted, indices_read, item_size, joints_read, le16, le32,
    lists_of, normals_read, number_size, opened, option_items, option_text, positions_in_range,
    positions_read, readable, storage_of, stored16, stored32, stride_of, tex_coords_read,
    truncated_header, vacant, weights_read, width_of, AccessorDecl, Attribute, BufferDecl, Document,
    Draft, DraftSpec, PrimitiveDecl, SparseStorage, Storage, ViewDecl,
};
use crate::gltf_error::{mode_of_spec, GltfFault, Mode};
use crate::gltf_loader::{
    access_to, as_stored, continued, finished, loaded, made_of, parses, primitive_list,
    primitives_read, resumed, started, Access, LoadSpec, LoadState, LoadStep,
};
use crate::laws::meshes::{
    indices_before, law_indices_name_the_same_vertices, law_vertices_hold_what_was_read,
    vertices_before,
};
use crate::mesh_assembly::{assembled, lemma_complete_assembly, MeshResult, MeshSpec};
use crate::primitive::well_formed;
use crate::uri::{buffer_origin, BufferOrigin};

verus! {

/// Where item `i` of an accessor starts in its buffer, if items without a stride
/// take `size` bytes.
pub open spec fn item_start(d: Document, accessor: int, i: int, size: int) -> int {
    let declared = d.accessors[accessor];
    let view = d.views[declared.view->0 as int];
    view.offset + declared.offset + i * (match view.stride {
        Some(stride) => stride as int,
        None => size,
    })
}

/// The bytes of the buffer that an accessor reads from.
pub open spec fn buffer_of(d: Document, accessor: int, buffers: Seq<Seq<u8>>) -> Seq<u8> {
    buffers[d.views[d.accessors[accessor].view->0 as int].buffer as int]
}

/// The bytes that an item takes, number by number.
proof fn lemma_item_size(attribute: Attribute, component: u32)
    ensures
        item_size(attribute, component) is Some == component_size(attribute, component) is Some,
        component_size(attribute, component) matches Some(size) ==> (size == 1 || size == 2 || size
            == 4) && item_size(attribute, component)->0 == match attribute {
            Attribute::Position => 12int,
            Attribute::Normal => 12int,
            Attribute::TexCoord => 2 * size,
            Attribute::Joints => 4 * size,
            Attribute::Weights => 4 * size,
            Attribute::Indices => size as int,
        },
{
    if let Some(size) = component_size(attribute, component) {
        let width = width_of(attribute);
        assert(size * width == match width {
            1 => size as int,
            2 => 2 * size,
            3 => 3 * size,
            _ => 4 * size,
        }) by (nonlinear_arith)
            requires
                width == 1 || width == 2 || width == 3 || width == 4,
        ;
    }
}

/// Where a component starts, over the declarations of a document.
proof fn lemma_component_start(
    d: Document,
    accessor: int,
    attribute: Attribute,
    storage: Storage,
    i: int,
    c: int,
)
    requires
        storage.accessor == d.accessors[accessor],
        storage.view is Some,
        storage.accessor.view is Some,
        storage.view->0 == d.views[d.accessors[accessor].view->0 as int],
        component_size(attribute, storage.accessor.component) is Some,
    ensures
        ({
            let size = component_size(attribute, storage.accessor.component)->0;
            let whole = item_size(attribute, storage.accessor.component)->0;
            component_start(attribute, storage, i, c) == item_start(d, accessor, i, whole as int)
                + (if size == 1 {
                c
            } else if size == 2 {
                2 * c
            } else {
                4 * c
            })
        }),
{
    lemma_item_size(attribute, storage.accessor.component);
    let size = component_size(attribute, storage.accessor.component)->0;
    assert(c * size == (if size == 1 {
        c
    } else if size == 2 {
        2 * c
    } else {
        4 * c
    })) by (nonlinear_arith)
        requires
            size == 1 || size == 2 || size == 4,
    ;
}

/// The primitives of a loaded mesh are all usable.
proof fn lemma_loaded_primitives(path: Seq<char>, mesh: MeshSpec, d: Document, buffers: Seq<Seq<u8>>)
    requires
        loaded(path, d, buffers) == LoadSpec::Loaded(mesh),
    ensures
        forall|p: int|
            0 <= p < primitive_list(d, buffers).len() ==> well_formed(
                #[trigger] primitive_list(d, buffers)[p],
            ),
        crate::primitive::joined_vertices(primitive_list(d, buffers)).len() <= 0x1_0000_0000,
{
    let list = primitive_list(d, buffers);
    lemma_complete_assembly(path, list, 0);
}

/// In a loaded mesh, the vertex of item `i` of primitive `p` has the position,
/// and the normal, that the accessors which the primitive names for them store
/// for item `i`: each component is the little-endian 32-bit word at its place in
/// the buffer, bit for bit.
pub proof fn law_positions_and_normals_are_the_stored_words(
    path: Seq<char>,
    mesh: MeshSpec,
    d: Document,
    buffers: Seq<Seq<u8>>,
    p: int,
    i: int,
    c: int,
)
    requires
        loaded(path, d, buffers) == LoadSpec::Loaded(mesh),
        made_of(mesh, d, buffers),
        0 <= p < d.meshes[0].len(),
        0 <= i,
        0 <= c < 3,
    ensures
        ({
            let primitive = d.meshes[0][p];
            let a = primitive.position->0 as int;
            let b = primitive.normal->0 as int;
            let start = vertices_before(primitive_list(d, buffers), p);
            &&& primitive.position is Some
            &&& primitive.normal is Some
            &&& d.sparse[a] is None && i < d.accessors[a].count ==> {
                &&& primitive_list(d, buffers)[p].positions->0.len() == d.accessors[a].count
                &&& start + i < mesh.vertices.len()
                &&& mesh.vertices[start + i].position[c] == le32(
                    buffer_of(d, a, buffers),
                    item_start(d, a, i, 12) + 4 * c,
                )
            }
            &&& d.sparse[a] is None && d.sparse[b] is None && i < d.accessors[a].count && i
                < d.accessors[b].count ==> mesh.vertices[start + i].normal[c] == le32(
                buffer_of(d, b, buffers),
                item_start(d, b, i, 12) + 4 * c,
            )
        }),
{
    let list = primitive_list(d, buffers);
    let primitive = d.meshes[0][p];
    lemma_loaded_primitives(path, mesh, d, buffers);
    assert(well_formed(list[p]));
    assert(as_stored(d, primitive, buffers, list[p]));
    let a = primitive.position->0 as int;
    if d.sparse[a] is None && i < d.accessors[a].count {
        assert(list[p].positions->0.len() == d.accessors[a].count);
        law_vertices_hold_what_was_read(list, p, i);
        let storage = storage_of(d, primitive, Attribute::Position)->0;
        lemma_item_size(Attribute::Position, storage.accessor.component);
        assert(list[p].positions->0[i][c] == le32(
            buffer_of(d, a, buffers),
            component_start(Attribute::Position, storage, i, c),
        ));
        lemma_component_start(d, a, Attribute::Position, storage, i, c);
        let b = primitive.normal->0 as int;
        if d.sparse[b] is None && i < d.accessors[b].count {
            let storage = storage_of(d, primitive, Attribute::Normal)->0;
            lemma_item_size(Attribute::Normal, storage.accessor.component);
            assert(list[p].normals->0[i][c] == le32(
                buffer_of(d, b, buffers),
                component_start(Attribute::Normal, storage, i, c),
            ));
            lemma_component_start(d, b, Attribute::Normal, storage, i, c);
        }
    }
}

/// In a loaded mesh, texture coordinates and weights that are stored as floats
/// are the little-endian 32-bit words at their places in their buffers.
pub proof fn law_float_coordinates_and_weights_are_the_stored_words(
    path: Seq<char>,
    mesh: MeshSpec,
    d: Document,
    buffers: Seq<Seq<u8>>,
    p: int,
    i: int,
    c: int,
)
    requires
        loaded(path, d, buffers) == LoadSpec::Loaded(mesh),
        made_of(mesh, d, buffers),
        0 <= p < d.meshes[0].len(),
        0 <= i < primitive_list(d, buffers)[p].positions->0.len(),
        0 <= c < 4,
    ensures
        ({
            let primitive = d.meshes[0][p];
            let a = primitive.tex_coord->0 as int;
            let b = primitive.weights->0 as int;
            let vertex = mesh.vertices[vertices_before(primitive_list(d, buffers), p) + i];
            &&& primitive.tex_coord is Some
            &&& primitive.weights is Some
            &&& c < 2 && d.sparse[a] is None && d.accessors[a].component == 5126 && i
                < d.accessors[a].count ==> vertex.uv[c] == le32(
                buffer_of(d, a, buffers),
                item_start(d, a, i, 8) + 4 * c,
            )
            &&& d.sparse[b] is None && d.accessors[b].component == 5126 && i < d.accessors[b].count
                ==> vertex.bone_weights[c] == le32(
                buffer_of(d, b, buffers),
                item_start(d, b, i, 16) + 4 * c,
            )
        }),
{
    let list = primitive_list(d, buffers);
    let primitive = d.meshes[0][p];
    lemma_loaded_primitives(path, mesh, d, buffers);
    assert(well_formed(list[p]));
    assert(as_stored(d, primitive, buffers, list[p]));
    law_vertices_hold_what_was_read(list, p, i);
    let a = primitive.tex_coord->0 as int;
    let b = primitive.weights->0 as int;
    if c < 2 && d.sparse[a] is None && d.accessors[a].component == 5126 && i
        < d.accessors[a].count {
        let storage = storage_of(d, primitive, Attribute::TexCoord)->0;
        lemma_item_size(Attribute::TexCoord, 5126);
        assert(list[p].tex_coords->0[i][c] == le32(
            buffer_of(d, a, buffers),
            component_start(Attribute::TexCoord, storage, i, c),
        ));
        lemma_component_start(d, a, Attribute::TexCoord, storage, i, c);
    }
    if d.sparse[b] is None && d.accessors[b].component == 5126 && i < d.accessors[b].count {
        let storage = storage_of(d, primitive, Attribute::Weights)->0;
        lemma_item_size(Attribute::Weights, 5126);
        assert(list[p].weights->0[i][c] == le32(
            buffer_of(d, b, buffers),
            component_start(Attribute::Weights, storage, i, c),
        ));
        lemma_component_start(d, b, Attribute::Weights, storage, i, c);
    }
}

/// In a loaded mesh, joint numbers are those stored, as bytes or as little-endian
/// 16-bit words.
pub proof fn law_joints_are_the_stored_numbers(
    path: Seq<char>,
    mesh: MeshSpec,
    d: Document,
    buffers: Seq<Seq<u8>>,
    p: int,
    i: int,
    c: int,
)
    requires
        loaded(path, d, buffers) == LoadSpec::Loaded(mesh),
        made_of(mesh, d, buffers),
        0 <= p < d.meshes[0].len(),
        0 <= i < primitive_list(d, buffers)[p].positions->0.len(),
        0 <= c < 4,
    ensures
        ({
            let a = d.meshes[0][p].joints->0 as int;
            let vertex = mesh.vertices[vertices_before(primitive_list(d, buffers), p) + i];
            &&& d.meshes[0][p].joints is Some
            &&& d.sparse[a] is None && i < d.accessors[a].count ==> {
                &&& d.accessors[a].component == 5121 || d.accessors[a].component == 5123
                &&& d.accessors[a].component == 5121 ==> vertex.bone_indices[c] as int
                    == buffer_of(d, a, buffers)[item_start(d, a, i, 4) + c]
                &&& d.accessors[a].component == 5123 ==> vertex.bone_indices[c] == le16(
                    buffer_of(d, a, buffers),
                    item_start(d, a, i, 8) + 2 * c,
                )
            }
        }),
{
    let list = primitive_list(d, buffers);
    let primitive = d.meshes[0][p];
    lemma_loaded_primitives(path, mesh, d, buffers);
    assert(well_formed(list[p]));
    assert(as_stored(d, primitive, buffers, list[p]));
    law_vertices_hold_what_was_read(list, p, i);
    let a = primitive.joints->0 as int;
    if d.sparse[a] is None && i < d.accessors[a].count {
        let component = d.accessors[a].component;
        let storage = storage_of(d, primitive, Attribute::Joints)->0;
        assert(list[p].joints->0[i][c] == stored16(
            buffer_of(d, a, buffers),
            component_start(Attribute::Joints, storage, i, c),
            component,
        ));
        lemma_item_size(Attribute::Joints, component);
        lemma_component_start(d, a, Attribute::Joints, storage, i, c);
    }
}

/// In a loaded mesh, each index is the stored one, moved by the number of
/// vertices of the primitives before: a byte, or a little-endian word of 16 or
/// 32 bits.
pub proof fn law_indices_are_the_stored_numbers(
    path: Seq<char>,
    mesh: MeshSpec,
    d: Document,
    buffers: Seq<Seq<u8>>,
    p: int,
    k: int,
)
    requires
        loaded(path, d, buffers) == LoadSpec::Loaded(mesh),
        made_of(mesh, d, buffers),
        0 <= p < d.meshes[0].len(),
        0 <= k,
    ensures
        ({
            let a = d.meshes[0][p].indices->0 as int;
            let list = primitive_list(d, buffers);
            let start = vertices_before(list, p);
            let at = indices_before(list, p) + k;
            &&& d.meshes[0][p].indices is Some
            &&& d.sparse[a] is None && k < d.accessors[a].count ==> {
                &&& at < mesh.indices.len()
                &&& d.accessors[a].component == 5121 ==> mesh.indices[at] as int == start
                    + buffer_of(d, a, buffers)[item_start(d, a, k, 1)]
                &&& d.accessors[a].component == 5123 ==> mesh.indices[at] as int == start + le16(
                    buffer_of(d, a, buffers),
                    item_start(d, a, k, 2),
                )
                &&& d.accessors[a].component == 5125 ==> mesh.indices[at] as int == start + le32(
                    buffer_of(d, a, buffers),
                    item_start(d, a, k, 4),
                )
            }
        }),
{
    let list = primitive_list(d, buffers);
    let primitive = d.meshes[0][p];
    lemma_loaded_primitives(path, mesh, d, buffers);
    assert(well_formed(list[p]));
    assert(as_stored(d, primitive, buffers, list[p]));
    let a = primitive.indices->0 as int;
    if d.sparse[a] is None && k < d.accessors[a].count {
        assert(list[p].indices->0.len() == d.accessors[a].count);
        let index = list[p].indices->0[k];
        assert(index < list[p].positions->0.len());
        law_vertices_hold_what_was_read(list, p, index as int);
        law_indices_name_the_same_vertices(list, p, k);
        let component = d.accessors[a].component;
        let storage = storage_of(d, primitive, Attribute::Indices)->0;
        assert(index == stored32(
            buffer_of(d, a, buffers),
            component_start(Attribute::Indices, storage, k, 0),
            component,
        ));
        lemma_item_size(Attribute::Indices, component);
        lemma_component_start(d, a, Attribute::Indices, storage, k, 0);
    }
}

/// The formats that items of an attribute can be stored in: component type,
/// components per item and bytes per item.
pub open spec fn usual_format(
    attribute: Attribute,
    component: u32,
    width: usize,
    size: int,
) -> bool {
    match attribute {
        Attribute::Position => component == 5126 && width == 3 && size == 12,
        Attribute::Normal => component == 5126 && width == 3 && size == 12,
        Attribute::TexCoord => width == 2 && (component == 5126 && size == 8 || component == 5123
            && size == 4 || component == 5121 && size == 2),
        Attribute::Joints => width == 4 && (component == 5123 && size == 8 || component == 5121
            && size == 4),
        Attribute::Weights => width == 4 && (component == 5126 && size == 16 || component == 5123
            && size == 8 || component == 5121 && size == 4),
        Attribute::Indices => width == 1 && (component == 5125 && size == 4 || component == 5123
            && size == 2 || component == 5121 && size == 1),
    }
}

/// Items of an attribute in a usual format, at least one, that do not overlap
/// and lie within their view and their buffer, are read.
pub proof fn law_items_within_their_buffer_are_read(
    attribute: Attribute,
    accessor: AccessorDecl,
    view: ViewDecl,
    size: int,
    buffers: Seq<Seq<u8>>,
)
    requires
        usual_format(attribute, accessor.component, accessor.width, size),
        accessor.count >= 1,
        view.stride matches Some(stride) ==> stride >= size,
        view.buffer < buffers.len(),
        buffers[view.buffer as int].len() <= usize::MAX,
        view.offset + view.length <= buffers[view.buffer as int].len(),
        accessor.offset + (match view.stride {
            Some(stride) => stride as int,
            None => size,
        }) * (accessor.count - 1) + size <= view.length,
    ensures
        access_to(
            attribute,
            Some(Storage { accessor, view: Some(view), sparse: None }),
            buffers,
        ) is Read,
{
    lemma_item_size(attribute, accessor.component);
    let number = number_size(accessor.component);
    let width = accessor.width;
    assert(number * width == size) by (nonlinear_arith)
        requires
            number == 1 || number == 2 || number == 4,
            number == 1 && size == width || number == 2 && size == 2 * width || number == 4 && size
                == 4 * width,
    ;
    let items = item_size(attribute, accessor.component)->0;
    assert(items == size);
    assert(stride_of(view, items) == (match view.stride {
        Some(stride) => stride as int,
        None => size,
    }));
}

/// What is handed to a reader has an item, all its items in one existing buffer,
/// and no end that overflows. An attribute that a primitive does not name is
/// missing, and an accessor is only taken as empty if it declares no items.
pub proof fn law_only_sound_declarations_are_read(
    attribute: Attribute,
    storage: Storage,
    buffers: Seq<Seq<u8>>,
)
    ensures
        access_to(attribute, None, buffers) is Missing,
        access_to(attribute, Some(storage), buffers) is Vacant ==> storage.accessor.count == 0,
        access_to(attribute, Some(storage), buffers) is Read ==> storage.accessor.count >= 1,
        access_to(attribute, Some(storage), buffers) is Read && storage.sparse is None ==> {
            &&& storage.view matches Some(view) && view.buffer < buffers.len() && view.offset
                + view.length <= usize::MAX
            &&& attribute is Joints ==> storage.accessor.width == 4
            &&& (attribute is Position || attribute is Normal) && (storage.accessor.component == 5126
                || storage.accessor.component == 5125) ==> storage.accessor.width == 3
            &&& attribute is TexCoord ==> storage.accessor.width == 2
            &&& attribute is Weights ==> storage.accessor.width == 4
            &&& attribute is Indices ==> storage.accessor.width == 1
        },
        storage.accessor.count == 0 ==> !readable(attribute, storage, buffers.len()),
        storage.accessor.count != 0 ==> !vacant(attribute, storage, buffers),
{
    lemma_item_size(attribute, storage.accessor.component);
    let number = number_size(storage.accessor.component);
    let width = storage.accessor.width;
    assert(number * width == (if number == 1 {
        width as int
    } else if number == 2 {
        2 * width
    } else {
        4 * width
    })) by (nonlinear_arith)
        requires
            number == 1 || number == 2 || number == 4,
    ;
}

/// Without a sparse list, items are read in a usual format only, but for
/// positions and normals, whose items have to take twelve bytes. Items that are
/// read do not overlap. A list is only taken as empty if it is tightly packed and
/// starts within its view, and the view lies within its buffer.
pub proof fn law_other_formats_are_missing(
    attribute: Attribute,
    accessor: AccessorDecl,
    view: ViewDecl,
    buffers: Seq<Seq<u8>>,
)
    ensures
        ({
            let storage = Storage { accessor, view: Some(view), sparse: None };
            let access = access_to(attribute, Some(storage), buffers);
            &&& access is Read && !(attribute is Position) && !(attribute is Normal)
                ==> exists|size: int| #[trigger]
                usual_format(attribute, accessor.component, accessor.width, size) && (
                view.stride matches Some(stride) ==> stride >= size)
            &&& access is Read && (attribute is Position || attribute is Normal) ==> (
            view.stride matches Some(stride) ==> stride >= 12) && (if accessor.component == 5120
                || accessor.component == 5121 {
                accessor.width == 12
            } else if accessor.component == 5122 || accessor.component == 5123 {
                accessor.width == 6
            } else {
                accessor.width == 3
            })
            &&& access is Vacant ==> {
                &&& view.buffer < buffers.len()
                &&& view.offset + view.length <= buffers[view.buffer as int].len()
                &&& accessor.offset <= view.length
            }
        }),
{
    let storage = Storage { accessor, view: Some(view), sparse: None };
    lemma_item_size(attribute, accessor.component);
    let number = number_size(accessor.component);
    let width = accessor.width;
    assert(number * width == (if number == 1 {
        width as int
    } else if number == 2 {
        2 * width
    } else {
        4 * width
    })) by (nonlinear_arith)
        requires
            number == 1 || number == 2 || number == 4,
    ;
    if readable(attribute, storage, buffers.len()) && !(attribute is Position) && !(
    attribute is Normal) {
        let size = item_size(attribute, accessor.component)->0 as int;
        assert(usual_format(attribute, accessor.component, accessor.width, size));
    }
}

/// What is read of an attribute is read through the accessor that the primitive
/// names for that attribute, and through the views that this accessor names.
pub proof fn law_attributes_are_read_through_their_own_accessors(
    d: Document,
    primitive: PrimitiveDecl,
    a: usize,
)
    ensures
        primitive.position == Some(a) ==> storage_of(d, primitive, Attribute::Position) is Some
            && storage_of(d, primitive, Attribute::Position)->0.accessor == d.accessors[a as int],
        primitive.normal == Some(a) ==> storage_of(d, primitive, Attribute::Normal) is Some
            && storage_of(d, primitive, Attribute::Normal)->0.accessor == d.accessors[a as int],
        primitive.tex_coord == Some(a) ==> storage_of(d, primitive, Attribute::TexCoord) is Some
            && storage_of(d, primitive, Attribute::TexCoord)->0.accessor == d.accessors[a as int],
        primitive.joints == Some(a) ==> storage_of(d, primitive, Attribute::Joints) is Some
            && storage_of(d, primitive, Attribute::Joints)->0.accessor == d.accessors[a as int],
        primitive.weights == Some(a) ==> storage_of(d, primitive, Attribute::Weights) is Some
            && storage_of(d, primitive, Attribute::Weights)->0.accessor == d.accessors[a as int],
        primitive.indices == Some(a) ==> storage_of(d, primitive, Attribute::Indices) is Some
            && storage_of(d, primitive, Attribute::Indices)->0.accessor == d.accessors[a as int],
        primitive.position is None ==> storage_of(d, primitive, Attribute::Position) is None,
        primitive.normal is None ==> storage_of(d, primitive, Attribute::Normal) is None,
        primitive.tex_coord is None ==> storage_of(d, primitive, Attribute::TexCoord) is None,
        primitive.joints is None ==> storage_of(d, primitive, Attribute::Joints) is None,
        primitive.weights is None ==> storage_of(d, primitive, Attribute::Weights) is None,
        primitive.indices is None ==> storage_of(d, primitive, Attribute::Indices) is None,
{
}

/// The views behind an attribute, and its sparse list, are those that belong to
/// the accessor that the primitive names for it.
pub proof fn law_an_accessor_is_read_through_its_own_views(
    d: Document,
    primitive: PrimitiveDecl,
    attribute: Attribute,
    a: usize,
)
    requires
        match attribute {
            Attribute::Position => primitive.position == Some(a),
            Attribute::Normal => primitive.normal == Some(a),
            Attribute::TexCoord => primitive.tex_coord == Some(a),
            Attribute::Joints => primitive.joints == Some(a),
            Attribute::Weights => primitive.weights == Some(a),
            Attribute::Indices => primitive.indices == Some(a),
        },
    ensures
        storage_of(d, primitive, attribute) is Some,
        ({
            let storage = storage_of(d, primitive, attribute)->0;
            &&& storage.accessor == d.accessors[a as int]
            &&& d.accessors[a as int].view matches Some(v) ==> storage.view == Some(
                d.views[v as int],
            )
            &&& d.accessors[a as int].view is None ==> storage.view is None
            &&& d.sparse[a as int] is None ==> storage.sparse is None
            &&& d.sparse[a as int] matches Some(list) ==> storage.sparse is Some
                && storage.sparse->0.list == list && storage.sparse->0.index_view
                == d.views[list.index_view as int] && storage.sparse->0.value_view
                == d.views[list.value_view as int]
        }),
{
}

/// Every primitive of the first mesh is read, in order, with its own topology;
/// without a mesh there is nothing to read.
pub proof fn law_all_primitives_of_the_first_mesh_are_read(
    d: Document,
    buffers: Seq<Seq<u8>>,
    p: int,
)
    ensures
        d.meshes.len() == 0 ==> primitives_read(d, buffers) is None,
        d.meshes.len() > 0 ==> primitives_read(d, buffers) is Some && primitives_read(
            d,
            buffers,
        )->0.len() == d.meshes[0].len(),
        d.meshes.len() > 0 && 0 <= p < d.meshes[0].len() ==> primitives_read(d, buffers)->0[p].mode
            == mode_of_spec(d.meshes[0][p].mode),
{
}

/// Whether items are what comes of an attribute: what its reader yields where it
/// has to be read, an empty list where there is nothing to read, and nothing
/// where it is missing.
pub open spec fn comes_of<T>(
    items: Option<Seq<T>>,
    access: Access,
    yielded: Option<Seq<T>>,
) -> bool {
    &&& access is Read ==> items == yielded
    &&& access is Vacant ==> items is Some && items->0.len() == 0
    &&& access is Missing ==> items is None
}

/// Each attribute of a primitive is what its own reader yields for where the
/// attribute is stored.
pub proof fn law_each_attribute_is_read_by_its_own_reader(
    d: Document,
    buffers: Seq<Seq<u8>>,
    p: int,
)
    requires
        d.meshes.len() > 0,
        0 <= p < d.meshes[0].len(),
    ensures
        ({
            let primitive = d.meshes[0][p];
            let data = primitives_read(d, buffers)->0[p];
            let position = storage_of(d, primitive, Attribute::Position);
            let normal = storage_of(d, primitive, Attribute::Normal);
            let tex_coord = storage_of(d, primitive, Attribute::TexCoord);
            let joints = storage_of(d, primitive, Attribute::Joints);
            let weights = storage_of(d, primitive, Attribute::Weights);
            let indices = storage_of(d, primitive, Attribute::Indices);
            &&& comes_of(
                data.positions,
                access_to(Attribute::Position, position, buffers),
                positions_read(position->0, buffers),
            )
            &&& comes_of(
                data.normals,
                access_to(Attribute::Normal, normal, buffers),
                normals_read(normal->0, buffers),
            )
            &&& comes_of(
                data.tex_coords,
                access_to(Attribute::TexCoord, tex_coord, buffers),
                tex_coords_read(tex_coord->0, buffers),
            )
            &&& comes_of(
                data.joints,
                access_to(Attribute::Joints, joints, buffers),
                joints_read(joints->0, buffers),
            )
            &&& comes_of(
                data.weights,
                access_to(Attribute::Weights, weights, buffers),
                weights_read(weights->0, buffers),
            )
            &&& comes_of(
                data.indices,
                access_to(Attribute::Indices, indices, buffers),
                indices_read(indices->0, buffers),
            )
        }),
{
}

/// Whether `count` items of `size` bytes, at least one, lie within their view
/// without overlapping, and the view within its buffer.
pub open spec fn lies_within(
    view: ViewDecl,
    offset: usize,
    count: usize,
    size: int,
    buffers: Seq<Seq<u8>>,
) -> bool {
    let stride = match view.stride {
        Some(stride) => stride as int,
        None => size,
    };
    &&& count >= 1
    &&& stride >= size
    &&& view.buffer < buffers.len()
    &&& buffers[view.buffer as int].len() <= usize::MAX
    &&& view.offset + view.length <= buffers[view.buffer as int].len()
    &&& offset + stride * (count - 1) + size <= view.length
}

/// Items with a sparse list are read if all spans that they name lie within
/// their buffers, with or without a view of their own, and whatever number of
/// components the accessor declares.
pub proof fn law_sparse_items_within_their_buffers_are_read(
    attribute: Attribute,
    accessor: AccessorDecl,
    view: Option<ViewDecl>,
    sparse: SparseStorage,
    width: usize,
    size: int,
    buffers: Seq<Seq<u8>>,
)
    requires
        usual_format(attribute, accessor.component, width, size),
        1 <= accessor.count <= u32::MAX,
        view matches Some(base) ==> lies_within(
            base,
            accessor.offset,
            accessor.count,
            size,
            buffers,
        ),
        lies_within(
            sparse.index_view,
            sparse.list.index_offset,
            sparse.list.count,
            sparse.list.index_size as int,
            buffers,
        ),
        lies_within(
            sparse.value_view,
            sparse.list.value_offset,
            sparse.list.count,
            size,
            buffers,
        ),
    ensures
        access_to(attribute, Some(Storage { accessor, view, sparse: Some(sparse) }), buffers) is Read,
{
    lemma_item_size(attribute, accessor.component);
    let items = item_size(attribute, accessor.component)->0;
    assert(items == size);
    if let Some(base) = view {
        assert(stride_of(base, items) == (match base.stride {
            Some(stride) => stride as int,
            None => size,
        }));
    }
    assert(stride_of(sparse.value_view, items) == (match sparse.value_view.stride {
        Some(stride) => stride as int,
        None => size,
    }));
}

/// An accessor without items, in a usual format and tightly packed, is an empty
/// list if it starts within its view and the view lies within its buffer.
pub proof fn law_no_items_are_an_empty_list(
    attribute: Attribute,
    accessor: AccessorDecl,
    view: ViewDecl,
    size: int,
    buffers: Seq<Seq<u8>>,
)
    requires
        usual_format(attribute, accessor.component, accessor.width, size),
        accessor.count == 0,
        view.stride is None,
        accessor.offset <= view.length,
        view.buffer < buffers.len(),
        view.offset + view.length <= buffers[view.buffer as int].len(),
    ensures
        access_to(
            attribute,
            Some(Storage { accessor, view: Some(view), sparse: None }),
            buffers,
        ) is Vacant,
{
    lemma_item_size(attribute, accessor.component);
}

/// The code of each topology is its own.
pub proof fn law_topologies_have_their_codes(code: u32)
    ensures
        mode_of_spec(code) == Mode::Points <==> code == 0,
        mode_of_spec(code) == Mode::Lines <==> code == 1,
        mode_of_spec(code) == Mode::LineLoop <==> code == 2,
        mode_of_spec(code) == Mode::LineStrip <==> code == 3,
        mode_of_spec(code) == Mode::Triangles <==> code == 4,
        mode_of_spec(code) == Mode::TriangleStrip <==> code == 5,
        mode_of_spec(code) == Mode::TriangleFan <==> code >= 6,
{
}

/// A load takes buffers one after the other. Data that the document gives is
/// taken whole if it is long enough, and refused with both lengths if not. A
/// buffer in a file of its own is waited for under the path that its URI names,
/// with all buffers before it. A buffer that is nowhere to be had ends the load
/// with the reason.
pub proof fn law_a_load_takes_one_buffer_after_the_other(
    path: Seq<char>,
    d: Document,
    buffers: Seq<Seq<u8>>,
)
    requires
        buffers.len() < d.buffers.len() <= usize::MAX,
    ensures
        ({
            let declared = d.buffers[buffers.len() as int];
            match buffer_origin(declared.uri, d.blob) {
                BufferOrigin::Data(data) => if data.len() >= declared.length {
                    continued(path, d, buffers) == continued(path, d, buffers.push(data))
                } else {
                    continued(path, d, buffers) == LoadSpec::Failed(
                        GltfFault::BufferTooShort {
                            path,
                            buffer_index: buffers.len() as usize,
                            declared_len: declared.length,
                            actual_len: data.len() as usize,
                        },
                    )
                },
                BufferOrigin::File(relative) => continued(path, d, buffers) == LoadSpec::NeedFile(
                    LoadState { path, document: d, buffers, relative },
                ),
                BufferOrigin::Nowhere(reason) => continued(path, d, buffers) == LoadSpec::Failed(
                    GltfFault::BufferSource { path, buffer_index: buffers.len() as usize, reason },
                ),
            }
        }),
{
}

/// A load that got its file goes on with the whole of it, as the next buffer, if
/// it is long enough; if not, or if the file could not be read, it ends with
/// what is wrong.
pub proof fn law_a_load_goes_on_with_the_file(
    state: LoadState,
    data: Seq<u8>,
    shown_path: Seq<char>,
    error: Seq<char>,
)
    ensures
        data.len() >= state.document.buffers[state.buffers.len() as int].length ==> resumed(
            state,
            Ok(data),
        ) == continued(state.path, state.document, state.buffers.push(data)),
        data.len() < state.document.buffers[state.buffers.len() as int].length ==> resumed(
            state,
            Ok(data),
        ) == LoadSpec::Failed(
            GltfFault::BufferTooShort {
                path: state.path,
                buffer_index: state.buffers.len() as usize,
                declared_len: state.document.buffers[state.buffers.len() as int].length,
                actual_len: data.len() as usize,
            },
        ),
        resumed(state, Err((shown_path, error))) == LoadSpec::Failed(
            GltfFault::BufferSource {
                path: state.path,
                buffer_index: state.buffers.len() as usize,
                reason: "failed to read external buffer '"@ + shown_path + "': "@ + error,
            },
        ),
{
}

/// A file that parses is loaded from its first buffer on; any other fails to
/// parse, under the path that it was loaded by, and with the error of reading it
/// if that is what went wrong.
pub proof fn law_a_file_that_parses_is_loaded(
    path: Seq<char>,
    bytes: Seq<u8>,
    error: Seq<char>,
)
    ensures
        parses(bytes) ==> started(path, Ok(bytes)) == continued(
            path,
            opened(bytes)->Ok_0,
            seq![],
        ),
        !parses(bytes) ==> started(path, Ok(bytes)) is Failed && started(
            path,
            Ok(bytes),
        )->Failed_0 is Parse && started(path, Ok(bytes))->Failed_0->Parse_path == path,
        started(path, Err(error)) == LoadSpec::Failed(GltfFault::Parse { path, source: error }),
        truncated_header(bytes) ==> started(path, Ok(bytes)) == LoadSpec::Failed(
            GltfFault::Parse { path, source: "failed to fill whole buffer"@ },
        ),
        !truncated_header(bytes) && drafted(bytes) is Err ==> started(path, Ok(bytes))
            == LoadSpec::Failed(GltfFault::Parse { path, source: drafted(bytes)->Err_0 }),
        !truncated_header(bytes) && drafted(bytes) is Ok && !positions_in_range(
            drafted(bytes)->Ok_0,
        ) ==> started(path, Ok(bytes)) == LoadSpec::Failed(
            GltfFault::Parse {
                path,
                source: "invalid glTF: POSITION accessor: Index out of bounds;"@,
            },
        ),
        !truncated_header(bytes) && drafted(bytes) is Ok && positions_in_range(
            drafted(bytes)->Ok_0,
        ) ==> (opened(bytes) is Ok <==> parses(bytes)),
        !truncated_header(bytes) && drafted(bytes) is Ok && positions_in_range(
            drafted(bytes)->Ok_0,
        ) && opened(bytes) is Err ==> started(path, Ok(bytes)) == LoadSpec::Failed(
            GltfFault::Parse { path, source: opened(bytes)->Err_0 },
        ),
{
}

/// A little-endian word has its bytes in order of weight.
pub proof fn law_words_are_little_endian(bytes: Seq<u8>, i: int)
    ensures
        le16(bytes, i) % 0x100 == bytes[i],
        le16(bytes, i) / 0x100 == bytes[i + 1],
        le32(bytes, i) % 0x100 == bytes[i],
        (le32(bytes, i) / 0x100) % 0x100 == bytes[i + 1],
        (le32(bytes, i) / 0x1_0000) % 0x100 == bytes[i + 2],
        le32(bytes, i) / 0x100_0000 == bytes[i + 3],
{
}

/// A header is cut short if it is that of a binary glTF file of version 2 and
/// gives a length below its own.
pub proof fn law_a_short_header_is_one_below_its_own_length(bytes: Seq<u8>)
    requires
        bytes.len() >= 12,
    ensures
        truncated_header(bytes) <==> {
            &&& bytes[0] == 0x67 && bytes[1] == 0x6c && bytes[2] == 0x54 && bytes[3] == 0x46
            &&& bytes[4] == 2 && bytes[5] == 0 && bytes[6] == 0 && bytes[7] == 0
            &&& bytes[8] < 12 && bytes[9] == 0 && bytes[10] == 0 && bytes[11] == 0
        },
{
    let magic = seq![0x67u8, 0x6cu8, 0x54u8, 0x46u8];
    let front = bytes.take(4);
    assert(front[0] == bytes[0] && front[1] == bytes[1] && front[2] == bytes[2] && front[3]
        == bytes[3]);
    if bytes[0] == 0x67 && bytes[1] == 0x6c && bytes[2] == 0x54 && bytes[3] == 0x46 {
        assert(front == magic);
    } else {
        assert(front[0] != magic[0] || front[1] != magic[1] || front[2] != magic[2] || front[3]
            != magic[3]);
    }
    law_words_are_little_endian(bytes, 4);
    law_words_are_little_endian(bytes, 8);
}

/// Position references are in range if each names one of the accessors.
pub proof fn law_each_position_reference_counts(draft: DraftSpec, m: int, p: int, accessor: usize)
    requires
        0 <= m < draft.positions.len(),
        0 <= p < draft.positions[m].len(),
        draft.positions[m][p] == Some(accessor),
        positions_in_range(draft),
    ensures
        accessor < draft.accessor_count,
{
    assert(draft.positions[m][p] == Some(accessor));
}

/// References that are all below the number of accessors are in range.
pub proof fn law_references_below_the_count_are_in_range(draft: DraftSpec)
    requires
        forall|m: int, p: int|
            0 <= m < draft.positions.len() && 0 <= p < draft.positions[m].len() ==> (
            #[trigger] draft.positions[m][p] is None || draft.positions[m][p]->0
                < draft.accessor_count),
    ensures
        positions_in_range(draft),
{
}

/// Declarations and lists are what they hold.
pub proof fn law_declarations_are_what_they_hold(
    buffer: BufferDecl,
    draft: Draft,
    lists: Seq<Vec<u8>>,
    items: Vec<u8>,
    text: String,
    i: int,
)
    ensures
        buffer@.length == buffer.length,
        buffer.uri matches Some(uri) ==> buffer@.uri == Some(uri@),
        buffer.uri is None ==> buffer@.uri is None,
        draft@.accessor_count == draft.accessor_count,
        draft@.positions.len() == draft.positions@.len(),
        0 <= i < draft.positions@.len() ==> draft@.positions[i] == draft.positions@[i]@,
        lists_of(lists).len() == lists.len(),
        0 <= i < lists.len() ==> lists_of(lists)[i] == lists[i]@,
        option_items(Some(items)) == Some(items@),
        option_text(Some(text)) == Some(text@),
{
}

/// Where a load stands is what it holds: the mesh, the error, or the wait.
pub proof fn law_a_step_is_what_it_holds(step: LoadStep)
    ensures
        step matches LoadStep::Loaded(mesh) ==> step@ == LoadSpec::Loaded(mesh@),
        step matches LoadStep::Failed(error) ==> step@ == LoadSpec::Failed(error@),
        step matches LoadStep::NeedFile(load) ==> step@ == LoadSpec::NeedFile(load@),
        step is Oversized ==> step@ is Oversized,
{
}

/// A load whose buffers are all there ends as its first mesh does: with that
/// mesh, with what is wrong with it, or with the finding that it is too large. It
/// never asks for another file.
pub proof fn law_a_load_ends_as_its_first_mesh_does(
    path: Seq<char>,
    d: Document,
    buffers: Seq<Seq<u8>>,
    result: MeshResult,
)
    requires
        buffers.len() >= d.buffers.len(),
    ensures
        ({
            let mesh = assembled(path, d.nodes, d.skins, primitives_read(d, buffers));
            let end = continued(path, d, buffers);
            &&& end matches LoadSpec::Loaded(m) ==> mesh == MeshResult::Loaded(m)
            &&& end matches LoadSpec::Failed(fault) ==> mesh == MeshResult::Failed(fault)
            &&& end is Oversized <==> mesh is Oversized
            &&& end !is NeedFile
        }),
        finished(result) matches LoadSpec::Loaded(m) ==> result == MeshResult::Loaded(m),
        finished(result) matches LoadSpec::Failed(fault) ==> result == MeshResult::Failed(fault),
        finished(result) is Oversized <==> result is Oversized,
        finished(result) !is NeedFile,
{
}

} // verus!
