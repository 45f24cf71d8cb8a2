//! What this crate reads of a glTF document.
//!
//! The `gltf` crate parses and validates a file and decodes its accessors. A
//! parsed file stays behind the opaque type `gltf::Gltf`; everything that the
//! loader decides on is copied out of it as plain values, described by the
//! mathematical [`Document`].
//!
//! The accessor readers of the `gltf` crate panic on some declarations (an
//! unexpected component type, no items, offsets that overflow).
//! [`is_readable`] recognises the declarations they handle, and nothing else
//! is ever handed to them. A list without items is not handed to them either:
//! [`is_vacant`] says whether it can be taken as empty.

use gltf::Semantic;
use vstd::prelude::*;

verus! {

/// The `GLenum` of signed bytes.
pub const BYTE: u32 = 5120;

/// The `GLenum` of unsigned bytes.
pub const UNSIGNED_BYTE: u32 = 5121;

/// The `GLenum` of signed 16-bit numbers.
pub const SHORT: u32 = 5122;

/// The `GLenum` of unsigned 16-bit numbers.
pub const UNSIGNED_SHORT: u32 = 5123;

/// The `GLenum` of unsigned 32-bit numbers.
pub const UNSIGNED_INT: u32 = 5125;

/// The `GLenum` of single-precision floats.
pub const FLOAT: u32 = 5126;

/// A glTF file as the `gltf` crate holds it after parsing.
#[verifier::external_type_specification]
#[verifier::external_body]
pub struct ExternalGltf(gltf::Gltf);

/// A buffer declaration: its length in bytes and where its data comes from. A
/// buffer without URI is the binary chunk of the file itself.
#[derive(Debug)]
pub struct BufferDecl {
    pub length: usize,
    pub uri: Option<String>,
}

/// A [`BufferDecl`] over mathematical text.
pub struct BufferSpec {
    pub length: usize,
    pub uri: Option<Seq<char>>,
}

/// Optional text, over mathematical text.
pub open spec fn option_text(text: Option<String>) -> Option<Seq<char>> {
    match text {
        Some(t) => Some(t@),
        None => None,
    }
}

impl View for BufferDecl {
    type V = BufferSpec;

    open spec fn view(&self) -> BufferSpec {
        BufferSpec { length: self.length, uri: option_text(self.uri) }
    }
}

/// A byte range of a buffer. Without a stride its items are tightly packed.
#[derive(Clone, Copy, Debug, PartialEq, Eq)]
pub struct ViewDecl {
    pub buffer: usize,
    pub offset: usize,
    pub length: usize,
    pub stride: Option<usize>,
}

/// The items of a buffer view: `count` items of `width` components each. The
/// component type is a `GLenum`.
#[derive(Clone, Copy, Debug, PartialEq, Eq)]
pub struct AccessorDecl {
    pub component: u32,
    pub width: usize,
    pub count: usize,
    pub offset: usize,
    pub view: Option<usize>,
}

/// The items of an accessor that deviate from its buffer view: which ones, by
/// an index list of `index_size` bytes per entry, and their values.
#[derive(Clone, Copy, Debug, PartialEq, Eq)]
pub struct SparseDecl {
    pub count: usize,
    pub index_size: usize,
    pub index_offset: usize,
    pub index_view: usize,
    pub value_offset: usize,
    pub value_view: usize,
}

/// A mesh primitive: its topology as a `GLenum`, and its accessors.
#[derive(Clone, Copy, Debug, PartialEq, Eq)]
pub struct PrimitiveDecl {
    pub mode: u32,
    pub indices: Option<usize>,
    pub position: Option<usize>,
    pub normal: Option<usize>,
    pub tex_coord: Option<usize>,
    pub joints: Option<usize>,
    pub weights: Option<usize>,
}

/// A node: the mesh that it shows and the skin that deforms it.
#[derive(Clone, Copy, Debug, PartialEq, Eq)]
pub struct NodeDecl {
    pub mesh: Option<usize>,
    pub skin: Option<usize>,
}

/// Where the items of an attribute are stored: an accessor, with the views that
/// it refers to.
#[derive(Clone, Copy, Debug, PartialEq, Eq)]
pub struct Storage {
    pub accessor: AccessorDecl,
    pub view: Option<ViewDecl>,
    pub sparse: Option<SparseStorage>,
}

/// Where the items that deviate are stored: the views of the index list and of
/// the values.
#[derive(Clone, Copy, Debug, PartialEq, Eq)]
pub struct SparseStorage {
    pub list: SparseDecl,
    pub index_view: ViewDecl,
    pub value_view: ViewDecl,
}

/// What a validated glTF file holds. `meshes` are lists of primitives, `skins`
/// lists of joint names.
pub struct Document {
    pub blob: Option<Seq<u8>>,
    pub buffers: Seq<BufferSpec>,
    pub views: Seq<ViewDecl>,
    pub accessors: Seq<AccessorDecl>,
    pub sparse: Seq<Option<SparseDecl>>,
    pub meshes: Seq<Seq<PrimitiveDecl>>,
    pub nodes: Seq<NodeDecl>,
    pub skins: Seq<Seq<Option<Seq<char>>>>,
}

/// The references that validation follows without looking: the accessor that
/// each primitive of each mesh names as its positions.
#[derive(Debug)]
pub struct Draft {
    pub accessor_count: usize,
    pub positions: Vec<Vec<Option<usize>>>,
}

/// A [`Draft`] over mathematical sequences.
pub struct DraftSpec {
    pub accessor_count: usize,
    pub positions: Seq<Seq<Option<usize>>>,
}

impl View for Draft {
    type V = DraftSpec;

    open spec fn view(&self) -> DraftSpec {
        DraftSpec {
            accessor_count: self.accessor_count,
            positions: Seq::new(self.positions@.len(), |m: int| self.positions@[m]@),
        }
    }
}

/// Whether every position reference of a draft names an accessor.
pub open spec fn positions_in_range(draft: DraftSpec) -> bool {
    forall|m: int, p: int|
        0 <= m < draft.positions.len() && 0 <= p < draft.positions[m].len() ==> (
        #[trigger] draft.positions[m][p] matches Some(accessor) ==> accessor
            < draft.accessor_count)
}

/// The little-endian 16-bit number at byte `i`.
pub open spec fn le16(bytes: Seq<u8>, i: int) -> u16 {
    (bytes[i] + 0x100 * bytes[i + 1]) as u16
}

/// The little-endian 32-bit number at byte `i`.
pub open spec fn le32(bytes: Seq<u8>, i: int) -> u32 {
    (bytes[i] + 0x100 * bytes[i + 1] + 0x1_0000 * bytes[i + 2] + 0x100_0000 * bytes[i + 3]) as u32
}

/// Whether the bytes are a binary glTF file whose header declares a length
/// that does not even cover the header.
pub open spec fn truncated_header(bytes: Seq<u8>) -> bool {
    &&& bytes.len() >= 12
    &&& bytes.take(4) == seq![0x67u8, 0x6cu8, 0x54u8, 0x46u8]
    &&& le32(bytes, 4) == 2
    &&& le32(bytes, 8) < 12
}

/// The outcome of `gltf::Gltf::from_reader_without_validation` on a file with
/// these bytes: what the file refers to, or the text of the error.
pub uninterp spec fn drafted(bytes: Seq<u8>) -> Result<DraftSpec, Seq<char>>;

/// The outcome of `gltf::Gltf::from_reader` on a file with these bytes: what
/// the file holds, or the text of the error.
pub uninterp spec fn opened(bytes: Seq<u8>) -> Result<Document, Seq<char>>;

/// What a parsed file holds, if it passes validation.
pub uninterp spec fn document_of(file: gltf::Gltf) -> Option<Document>;

/// Whether every reference inside a document leads somewhere.
pub open spec fn references_in_range(d: Document) -> bool {
    &&& d.sparse.len() == d.accessors.len()
    &&& forall|v: int|
        0 <= v < d.views.len() ==> (#[trigger] d.views[v]).buffer < d.buffers.len()
    &&& forall|a: int|
        0 <= a < d.accessors.len() ==> (#[trigger] d.accessors[a].view matches Some(v) ==> v
            < d.views.len())
    &&& forall|a: int|
        0 <= a < d.sparse.len() ==> (#[trigger] d.sparse[a] matches Some(sparse) ==> sparse.index_view
            < d.views.len() && sparse.value_view < d.views.len())
    &&& forall|m: int, p: int|
        0 <= m < d.meshes.len() && 0 <= p < d.meshes[m].len() ==> accessors_in_range(
            #[trigger] d.meshes[m][p],
            d.accessors.len(),
        )
    &&& forall|n: int|
        0 <= n < d.nodes.len() ==> (#[trigger] d.nodes[n].skin matches Some(skin) ==> skin
            < d.skins.len())
}

/// Whether a primitive names only accessors that exist.
pub open spec fn accessors_in_range(primitive: PrimitiveDecl, accessor_count: nat) -> bool {
    &&& primitive.mode <= 6
    &&& primitive.indices matches Some(a) ==> a < accessor_count
    &&& primitive.position matches Some(a) ==> a < accessor_count
    &&& primitive.normal matches Some(a) ==> a < accessor_count
    &&& primitive.tex_coord matches Some(a) ==> a < accessor_count
    &&& primitive.joints matches Some(a) ==> a < accessor_count
    &&& primitive.weights matches Some(a) ==> a < accessor_count
}

/// Calls `gltf::Gltf::from_reader_without_validation` on the bytes and copies
/// out of the parsed JSON how many accessors there are and which of them each
/// primitive of each mesh names as its positions. Claims that the outcome, or
/// the text of the error, is a function of the bytes. The call computes the
/// length of what follows a binary header by subtraction, hence the `requires`.
#[verifier::external_body]
pub(crate) fn read_draft(bytes: &[u8]) -> (r: Result<Draft, String>)
    requires
        !truncated_header(bytes@),
    ensures
        match r {
            Ok(draft) => drafted(bytes@) == Ok::<DraftSpec, Seq<char>>(draft@),
            Err(e) => drafted(bytes@) == Err::<DraftSpec, Seq<char>>(e@),
        },
{
    let file = gltf::Gltf::from_reader_without_validation(std::io::Cursor::new(bytes))
        .map_err(|e| e.to_string())?;
    let root = file.document.as_json();
    let key = gltf::json::validation::Checked::Valid(Semantic::Positions);
    let positions = root.meshes.iter().map(
        |mesh| mesh.primitives.iter().map(
            |primitive| primitive.attributes.get(&key).map(|index| index.value()),
        ).collect(),
    ).collect();
    Ok(Draft { accessor_count: root.accessors.len(), positions })
}

/// Calls `gltf::Gltf::from_reader` on the bytes. Claims that what the file
/// holds, or the text of the error, is a function of the bytes, and that after
/// validation every reference inside the document leads somewhere. Validation
/// looks up the positions of each primitive unchecked, hence the `requires`.
#[verifier::external_body]
pub(crate) fn open_file(bytes: &[u8]) -> (r: Result<gltf::Gltf, String>)
    requires
        !truncated_header(bytes@),
        drafted(bytes@) matches Ok(draft) && positions_in_range(draft),
    ensures
        match r {
            Ok(file) => {
                &&& document_of(file) is Some
                &&& opened(bytes@) == Ok::<Document, Seq<char>>(document_of(file)->0)
                &&& references_in_range(document_of(file)->0)
            },
            Err(e) => opened(bytes@) == Err::<Document, Seq<char>>(e@),
        },
{
    gltf::Gltf::from_reader(std::io::Cursor::new(bytes)).map_err(|e| e.to_string())
}

/// Copies the binary chunk out of `gltf::Gltf::blob`.
#[verifier::external_body]
pub(crate) fn copy_blob(file: &gltf::Gltf) -> (blob: Option<Vec<u8>>)
    requires
        document_of(*file) is Some,
    ensures
        match blob {
            Some(bytes) => document_of(*file)->0.blob == Some(bytes@),
            None => document_of(*file)->0.blob is None,
        },
{
    file.blob.clone()
}

/// Copies the buffer declarations out of `gltf::Document::buffers`, in order.
#[verifier::external_body]
pub(crate) fn copy_buffers(file: &gltf::Gltf) -> (buffers: Vec<BufferDecl>)
    requires
        document_of(*file) is Some,
    ensures
        buffers@.len() == document_of(*file)->0.buffers.len(),
        forall|i: int|
            0 <= i < buffers@.len() ==> (#[trigger] buffers@[i])@ == document_of(
                *file,
            )->0.buffers[i],
{
    file.document.buffers().map(
        |buffer| BufferDecl {
            length: buffer.length(),
            uri: match buffer.source() {
                gltf::buffer::Source::Bin => None,
                gltf::buffer::Source::Uri(uri) => Some(uri.to_string()),
            },
        },
    ).collect()
}

/// Copies the buffer views out of `gltf::Document::views`, in order.
#[verifier::external_body]
pub(crate) fn copy_views(file: &gltf::Gltf) -> (views: Vec<ViewDecl>)
    requires
        document_of(*file) is Some,
    ensures
        views@ == document_of(*file)->0.views,
{
    file.document.views().map(
        |view| ViewDecl {
            buffer: view.buffer().index(),
            offset: view.offset(),
            length: view.length(),
            stride: view.stride(),
        },
    ).collect()
}

/// Copies the accessors out of `gltf::Document::accessors`, in order.
#[verifier::external_body]
pub(crate) fn copy_accessors(file: &gltf::Gltf) -> (accessors: Vec<AccessorDecl>)
    requires
        document_of(*file) is Some,
    ensures
        accessors@ == document_of(*file)->0.accessors,
{
    file.document.accessors().map(
        |accessor| AccessorDecl {
            component: accessor.data_type().as_gl_enum(),
            width: accessor.dimensions().multiplicity(),
            count: accessor.count(),
            offset: accessor.offset(),
            view: accessor.view().map(|view| view.index()),
        },
    ).collect()
}

/// Copies what `gltf::Accessor::sparse` gives for each accessor, in order.
#[verifier::external_body]
pub(crate) fn copy_sparse(file: &gltf::Gltf) -> (sparse: Vec<Option<SparseDecl>>)
    requires
        document_of(*file) is Some,
    ensures
        sparse@ == document_of(*file)->0.sparse,
{
    file.document.accessors().map(
        |accessor| accessor.sparse().map(
            |sparse| SparseDecl {
                count: sparse.count(),
                index_size: sparse.indices().index_type().size(),
                index_offset: sparse.indices().offset(),
                index_view: sparse.indices().view().index(),
                value_offset: sparse.values().offset(),
                value_view: sparse.values().view().index(),
            },
        ),
    ).collect()
}

/// The contents of a list of lists.
pub open spec fn lists_of<T>(lists: Seq<Vec<T>>) -> Seq<Seq<T>> {
    Seq::new(lists.len(), |i: int| lists[i]@)
}

/// Copies the primitives of each mesh out of `gltf::Document::meshes`, in
/// order.
#[verifier::external_body]
pub(crate) fn copy_meshes(file: &gltf::Gltf) -> (meshes: Vec<Vec<PrimitiveDecl>>)
    requires
        document_of(*file) is Some,
    ensures
        lists_of(meshes@) == document_of(*file)->0.meshes,
{
    file.document.meshes().map(
        |mesh| mesh.primitives().map(
            |p| PrimitiveDecl {
                mode: p.mode().as_gl_enum(),
                indices: p.indices().map(|a| a.index()),
                position: p.get(&Semantic::Positions).map(|a| a.index()),
                normal: p.get(&Semantic::Normals).map(|a| a.index()),
                tex_coord: p.get(&Semantic::TexCoords(0)).map(|a| a.index()),
                joints: p.get(&Semantic::Joints(0)).map(|a| a.index()),
                weights: p.get(&Semantic::Weights(0)).map(|a| a.index()),
            },
        ).collect(),
    ).collect()
}

/// Copies the nodes out of `gltf::Document::nodes`, in order.
#[verifier::external_body]
pub(crate) fn copy_nodes(file: &gltf::Gltf) -> (nodes: Vec<NodeDecl>)
    requires
        document_of(*file) is Some,
    ensures
        nodes@ == document_of(*file)->0.nodes,
{
    file.document.nodes().map(
        |node| NodeDecl {
            mesh: node.mesh().map(|mesh| mesh.index()),
            skin: node.skin().map(|skin| skin.index()),
        },
    ).collect()
}

/// Copies the joint names of each skin out of `gltf::Document::skins`, in
/// order, as far as the joints have names.
#[verifier::external_body]
pub(crate) fn copy_skins(file: &gltf::Gltf) -> (skins: Vec<Vec<Option<String>>>)
    requires
        document_of(*file) is Some,
    ensures
        skins@.len() == document_of(*file)->0.skins.len(),
        forall|s: int|
            0 <= s < skins@.len() ==> (#[trigger] skins@[s])@.len() == document_of(
                *file,
            )->0.skins[s].len(),
        forall|s: int, i: int|
            0 <= s < skins@.len() && 0 <= i < skins@[s]@.len() ==> option_text(
                #[trigger] skins@[s]@[i],
            ) == document_of(*file)->0.skins[s][i],
{
    file.document.skins().map(
        |skin| skin.joints().map(|joint| joint.name().map(|name| name.to_string())).collect(),
    ).collect()
}

/// The vertex attributes of a primitive, and its index list.
#[derive(Clone, Copy, Debug, PartialEq, Eq)]
pub enum Attribute {
    Position,
    Normal,
    TexCoord,
    Joints,
    Weights,
    Indices,
}

/// The accessor that a primitive names for an attribute.
pub open spec fn accessor_of_spec(primitive: PrimitiveDecl, attribute: Attribute) -> Option<usize> {
    match attribute {
        Attribute::Position => primitive.position,
        Attribute::Normal => primitive.normal,
        Attribute::TexCoord => primitive.tex_coord,
        Attribute::Joints => primitive.joints,
        Attribute::Weights => primitive.weights,
        Attribute::Indices => primitive.indices,
    }
}

/// The number of components that an item of an attribute has.
pub open spec fn width_of_spec(attribute: Attribute) -> usize {
    match attribute {
        Attribute::Position => 3,
        Attribute::Normal => 3,
        Attribute::TexCoord => 2,
        Attribute::Joints => 4,
        Attribute::Weights => 4,
        Attribute::Indices => 1,
    }
}

/// The bytes that a component of an attribute takes, for the component types
/// that the attribute can have. Positions and normals are taken as floats
/// whatever their component type.
pub open spec fn component_size_spec(attribute: Attribute, component: u32) -> Option<usize> {
    match attribute {
        Attribute::Position | Attribute::Normal => Some(4usize),
        Attribute::TexCoord | Attribute::Weights => if component == UNSIGNED_BYTE {
            Some(1usize)
        } else if component == UNSIGNED_SHORT {
            Some(2usize)
        } else if component == FLOAT {
            Some(4usize)
        } else {
            None
        },
        Attribute::Joints => if component == UNSIGNED_BYTE {
            Some(1usize)
        } else if component == UNSIGNED_SHORT {
            Some(2usize)
        } else {
            None
        },
        Attribute::Indices => if component == UNSIGNED_BYTE {
            Some(1usize)
        } else if component == UNSIGNED_SHORT {
            Some(2usize)
        } else if component == UNSIGNED_INT {
            Some(4usize)
        } else {
            None
        },
    }
}

/// The bytes that a number of a component type takes.
pub open spec fn number_size_spec(component: u32) -> usize {
    if component == BYTE || component == UNSIGNED_BYTE {
        1
    } else if component == SHORT || component == UNSIGNED_SHORT {
        2
    } else {
        4
    }
}

/// The accessor that a primitive names for an attribute.
#[verifier::when_used_as_spec(accessor_of_spec)]
pub fn accessor_of(primitive: PrimitiveDecl, attribute: Attribute) -> (a: Option<usize>)
    ensures
        a == accessor_of_spec(primitive, attribute),
{
    match attribute {
        Attribute::Position => primitive.position,
        Attribute::Normal => primitive.normal,
        Attribute::TexCoord => primitive.tex_coord,
        Attribute::Joints => primitive.joints,
        Attribute::Weights => primitive.weights,
        Attribute::Indices => primitive.indices,
    }
}

/// The number of components that an item of an attribute has.
#[verifier::when_used_as_spec(width_of_spec)]
pub fn width_of(attribute: Attribute) -> (width: usize)
    ensures
        width == width_of_spec(attribute),
{
    match attribute {
        Attribute::Position => 3,
        Attribute::Normal => 3,
        Attribute::TexCoord => 2,
        Attribute::Joints => 4,
        Attribute::Weights => 4,
        Attribute::Indices => 1,
    }
}

/// The bytes that a component of an attribute takes, for the component types
/// that the attribute can have.
#[verifier::when_used_as_spec(component_size_spec)]
pub fn component_size(attribute: Attribute, component: u32) -> (size: Option<usize>)
    ensures
        size == component_size_spec(attribute, component),
{
    match attribute {
        Attribute::Position | Attribute::Normal => Some(4),
        Attribute::TexCoord | Attribute::Weights => match component {
            UNSIGNED_BYTE => Some(1),
            UNSIGNED_SHORT => Some(2),
            FLOAT => Some(4),
            _ => None,
        },
        Attribute::Joints => match component {
            UNSIGNED_BYTE => Some(1),
            UNSIGNED_SHORT => Some(2),
            _ => None,
        },
        Attribute::Indices => match component {
            UNSIGNED_BYTE => Some(1),
            UNSIGNED_SHORT => Some(2),
            UNSIGNED_INT => Some(4),
            _ => None,
        },
    }
}

/// The bytes that a number of a component type takes.
#[verifier::when_used_as_spec(number_size_spec)]
pub fn number_size(component: u32) -> (size: usize)
    ensures
        size == number_size_spec(component),
{
    match component {
        BYTE | UNSIGNED_BYTE => 1,
        SHORT | UNSIGNED_SHORT => 2,
        _ => 4,
    }
}

/// The bytes that an item of an attribute takes, for the component types that
/// the attribute can have.
pub open spec fn item_size(attribute: Attribute, component: u32) -> Option<usize> {
    match component_size(attribute, component) {
        Some(size) => Some((size * width_of(attribute)) as usize),
        None => None,
    }
}

/// The distance between the items of a view.
pub open spec fn stride_of(view: ViewDecl, size: usize) -> usize {
    match view.stride {
        Some(stride) => stride,
        None => size,
    }
}

/// Whether `count` items of `size` bytes at `offset` of a view can be asked
/// for: there is an item, items do not overlap, the buffer exists, and no end
/// position overflows.
pub open spec fn span_readable(
    view: ViewDecl,
    offset: usize,
    count: usize,
    size: usize,
    buffer_count: nat,
) -> bool {
    &&& count >= 1
    &&& stride_of(view, size) >= size
    &&& view.buffer < buffer_count
    &&& view.offset + view.length <= usize::MAX
    &&& offset + stride_of(view, size) * (count - 1) + size <= usize::MAX
}

/// Whether an attribute can be asked for through an accessor: every span that
/// holds its items can be asked for. Without a sparse list the declared items
/// also have to take as many bytes as those of the attribute.
pub open spec fn readable(attribute: Attribute, storage: Storage, buffer_count: nat) -> bool {
    let accessor = storage.accessor;
    match item_size(attribute, accessor.component) {
        None => false,
        Some(size) => match storage.sparse {
            None => {
                &&& number_size(accessor.component) * accessor.width == size
                &&& storage.view is Some
                &&& span_readable(
                    storage.view->0,
                    accessor.offset,
                    accessor.count,
                    size,
                    buffer_count,
                )
            },
            Some(sparse) => {
                &&& 1 <= accessor.count <= u32::MAX
                &&& storage.view matches Some(view) ==> span_readable(
                    view,
                    accessor.offset,
                    accessor.count,
                    size,
                    buffer_count,
                )
                &&& span_readable(
                    sparse.index_view,
                    sparse.list.index_offset,
                    sparse.list.count,
                    sparse.list.index_size,
                    buffer_count,
                )
                &&& span_readable(
                    sparse.value_view,
                    sparse.list.value_offset,
                    sparse.list.count,
                    size,
                    buffer_count,
                )
            },
        },
    }
}

/// Whether `count` items of `size` bytes at `offset` of a view lie within the
/// view, and the view within its buffer. No items lie anywhere up to the end
/// of a view whose items are tightly packed.
pub open spec fn span_in_bounds(
    view: ViewDecl,
    offset: usize,
    count: usize,
    size: usize,
    buffers: Seq<Seq<u8>>,
) -> bool {
    &&& view.buffer < buffers.len()
    &&& view.offset + view.length <= buffers[view.buffer as int].len()
    &&& if count == 0 {
        stride_of(view, size) == size && offset <= view.length
    } else {
        offset + stride_of(view, size) * (count - 1) + size <= view.length
    }
}

/// Whether an accessor declares no items for an attribute that can have its
/// component type, and every span that it names lies within its buffer.
pub open spec fn vacant(attribute: Attribute, storage: Storage, buffers: Seq<Seq<u8>>) -> bool {
    let accessor = storage.accessor;
    &&& accessor.count == 0
    &&& item_size(attribute, accessor.component) matches Some(size) && {
        &&& storage.view is Some || storage.sparse is Some
        &&& storage.view matches Some(view) ==> span_in_bounds(
            view,
            accessor.offset,
            0,
            size,
            buffers,
        )
        &&& storage.sparse matches Some(sparse) ==> {
            &&& span_in_bounds(
                sparse.index_view,
                sparse.list.index_offset,
                sparse.list.count,
                sparse.list.index_size,
                buffers,
            )
            &&& span_in_bounds(
                sparse.value_view,
                sparse.list.value_offset,
                sparse.list.count,
                size,
                buffers,
            )
        }
    }
}

/// Where a span of items ends, unless that overflows.
fn span_end(offset: usize, count: usize, stride: usize, size: usize) -> (end: Option<usize>)
    requires
        count >= 1,
    ensures
        match end {
            Some(e) => e == offset + stride * (count - 1) + size,
            None => offset + stride * (count - 1) + size > usize::MAX,
        },
{
    match stride.checked_mul(count - 1) {
        None => {
            assert(stride * (count - 1) > usize::MAX);
            None
        },
        Some(reach) => match offset.checked_add(reach) {
            None => None,
            Some(last) => last.checked_add(size),
        },
    }
}

/// Whether a span of items can be asked for.
fn is_span_readable(
    view: ViewDecl,
    offset: usize,
    count: usize,
    size: usize,
    buffer_count: usize,
) -> (b: bool)
    ensures
        b == span_readable(view, offset, count, size, buffer_count as nat),
{
    let stride: usize = match view.stride {
        Some(stride) => stride,
        None => size,
    };
    if count < 1 || stride < size || view.buffer >= buffer_count {
        return false;
    }
    view.offset.checked_add(view.length).is_some() && span_end(
        offset,
        count,
        stride,
        size,
    ).is_some()
}

/// Whether a span of items lies within its buffer.
fn is_span_in_bounds(
    view: ViewDecl,
    offset: usize,
    count: usize,
    size: usize,
    buffers: &Vec<Vec<u8>>,
) -> (b: bool)
    ensures
        b == span_in_bounds(view, offset, count, size, lists_of(buffers@)),
{
    if view.buffer >= buffers.len() {
        return false;
    }
    assert(lists_of(buffers@)[view.buffer as int] == buffers@[view.buffer as int]@);
    let available: usize = buffers[view.buffer].len();
    if view.length > available || view.offset > available - view.length {
        return false;
    }
    let stride: usize = match view.stride {
        Some(stride) => stride,
        None => size,
    };
    if count == 0 {
        return stride == size && offset <= view.length;
    }
    match span_end(offset, count, stride, size) {
        None => false,
        Some(end) => end <= view.length,
    }
}

/// The bytes that an item of an attribute takes.
fn size_of_item(attribute: Attribute, component: u32) -> (size: Option<usize>)
    ensures
        size == item_size(attribute, component),
{
    match component_size(attribute, component) {
        Some(size) => {
            let width: usize = width_of(attribute);
            assert(size * width <= 16) by (nonlinear_arith)
                requires
                    size <= 4,
                    width <= 4,
            ;
            Some(size * width)
        },
        None => None,
    }
}

/// Whether an attribute can be asked for through an accessor.
pub fn is_readable(attribute: Attribute, storage: Storage, buffer_count: usize) -> (b: bool)
    ensures
        b == readable(attribute, storage, buffer_count as nat),
{
    let accessor = storage.accessor;
    let size: usize = match size_of_item(attribute, accessor.component) {
        Some(size) => size,
        None => {
            return false;
        },
    };
    let base: bool = match storage.view {
        Some(view) => is_span_readable(view, accessor.offset, accessor.count, size, buffer_count),
        None => storage.sparse.is_some(),
    };
    match storage.sparse {
        None => base && match number_size(accessor.component).checked_mul(accessor.width) {
            Some(declared) => declared == size,
            None => false,
        },
        Some(sparse) => base && accessor.count >= 1 && accessor.count as u64 <= 0xffff_ffff
            && is_span_readable(
            sparse.index_view,
            sparse.list.index_offset,
            sparse.list.count,
            sparse.list.index_size,
            buffer_count,
        ) && is_span_readable(
            sparse.value_view,
            sparse.list.value_offset,
            sparse.list.count,
            size,
            buffer_count,
        ),
    }
}

/// Whether an accessor declares no items, in a way that can be taken as an
/// empty list.
pub fn is_vacant(attribute: Attribute, storage: Storage, buffers: &Vec<Vec<u8>>) -> (b: bool)
    ensures
        b == vacant(attribute, storage, lists_of(buffers@)),
{
    let accessor = storage.accessor;
    let size: usize = match size_of_item(attribute, accessor.component) {
        Some(size) => size,
        None => {
            return false;
        },
    };
    if accessor.count != 0 {
        return false;
    }
    let base: bool = match storage.view {
        Some(view) => is_span_in_bounds(view, accessor.offset, 0, size, buffers),
        None => storage.sparse.is_some(),
    };
    match storage.sparse {
        None => base,
        Some(sparse) => base && is_span_in_bounds(
            sparse.index_view,
            sparse.list.index_offset,
            sparse.list.count,
            sparse.list.index_size,
            buffers,
        ) && is_span_in_bounds(
            sparse.value_view,
            sparse.list.value_offset,
            sparse.list.count,
            size,
            buffers,
        ),
    }
}

/// Where the items of an accessor of a document are stored.
pub open spec fn storage_at(d: Document, accessor: int) -> Storage {
    Storage {
        accessor: d.accessors[accessor],
        view: match d.accessors[accessor].view {
            Some(v) => Some(d.views[v as int]),
            None => None,
        },
        sparse: match d.sparse[accessor] {
            Some(list) => Some(
                SparseStorage {
                    list,
                    index_view: d.views[list.index_view as int],
                    value_view: d.views[list.value_view as int],
                },
            ),
            None => None,
        },
    }
}

/// Where the items of an attribute of a primitive of a document are stored, if
/// the primitive has the attribute.
pub open spec fn storage_of(d: Document, primitive: PrimitiveDecl, attribute: Attribute) -> Option<
    Storage,
> {
    match accessor_of(primitive, attribute) {
        Some(a) => Some(storage_at(d, a as int)),
        None => None,
    }
}

/// Whether an attribute of a primitive of a mesh can be asked for.
pub open spec fn attribute_readable(
    d: Document,
    mesh: int,
    primitive: int,
    attribute: Attribute,
    buffer_count: nat,
) -> bool {
    &&& 0 <= mesh < d.meshes.len()
    &&& 0 <= primitive < d.meshes[mesh].len()
    &&& storage_of(d, d.meshes[mesh][primitive], attribute) matches Some(storage) && readable(
        attribute,
        storage,
        buffer_count,
    )
}

/// Whether the items of an attribute lie within its buffer view, and the view
/// within its buffer.
pub open spec fn in_bounds(
    attribute: Attribute,
    storage: Storage,
    buffers: Seq<Seq<u8>>,
) -> bool {
    span_in_bounds(
        storage.view->0,
        storage.accessor.offset,
        storage.accessor.count,
        item_size(attribute, storage.accessor.component)->0,
        buffers,
    )
}

/// The bytes of the buffer behind an attribute.
pub open spec fn attribute_bytes(storage: Storage, buffers: Seq<Seq<u8>>) -> Seq<u8> {
    buffers[storage.view->0.buffer as int]
}

/// Where component `c` of item `k` of an attribute starts in its buffer.
pub open spec fn component_start(
    attribute: Attribute,
    storage: Storage,
    k: int,
    c: int,
) -> int {
    let accessor = storage.accessor;
    let view = storage.view->0;
    let size = item_size(attribute, accessor.component)->0;
    view.offset + accessor.offset + k * stride_of(view, size) + c * component_size(
        attribute,
        accessor.component,
    )->0
}

/// A 16-bit number stored as an unsigned byte or short, by component type.
pub open spec fn stored16(bytes: Seq<u8>, i: int, component: u32) -> u16 {
    if component == UNSIGNED_BYTE {
        bytes[i] as u16
    } else {
        le16(bytes, i)
    }
}

/// A 32-bit number stored as an unsigned byte, short or int, by component
/// type.
pub open spec fn stored32(bytes: Seq<u8>, i: int, component: u32) -> u32 {
    if component == UNSIGNED_BYTE {
        bytes[i] as u32
    } else if component == UNSIGNED_SHORT {
        le16(bytes, i) as u32
    } else {
        le32(bytes, i)
    }
}

/// The optional contents of an optional list.
pub open spec fn option_items<T>(items: Option<Vec<T>>) -> Option<Seq<T>> {
    match items {
        Some(list) => Some(list@),
        None => None,
    }
}

/// Whether, for an attribute without sparse replacements, there are items if
/// and only if all of them lie within their buffer, as many as declared.
pub open spec fn holds_all<T>(
    attribute: Attribute,
    storage: Storage,
    buffers: Seq<Seq<u8>>,
    items: Option<Seq<T>>,
) -> bool {
    storage.sparse is None ==> {
        &&& items is Some == in_bounds(attribute, storage, buffers)
        &&& items is Some ==> items->0.len() == storage.accessor.count
    }
}

/// Whether the items of an attribute are stored as the bit patterns that they
/// are read as.
pub open spec fn stored_as_floats(attribute: Attribute, component: u32) -> bool {
    attribute is Position || attribute is Normal || component == FLOAT
}

/// Whether the items of an attribute without sparse replacements are those
/// declared and, where they are stored as floats, the stored bit patterns.
pub open spec fn holds_floats<const N: usize>(
    attribute: Attribute,
    storage: Storage,
    buffers: Seq<Seq<u8>>,
    items: Option<Seq<[u32; N]>>,
) -> bool {
    &&& holds_all(attribute, storage, buffers, items)
    &&& storage.sparse is None && items is Some && stored_as_floats(
        attribute,
        storage.accessor.component,
    ) ==> forall|k: int, c: int|
        0 <= k < items->0.len() && 0 <= c < N ==> #[trigger] items->0[k][c] == le32(
            attribute_bytes(storage, buffers),
            component_start(attribute, storage, k, c),
        )
}

/// Whether the joints without sparse replacements are those stored.
pub open spec fn holds_joints(
    storage: Storage,
    buffers: Seq<Seq<u8>>,
    items: Option<Seq<[u16; 4]>>,
) -> bool {
    &&& holds_all(Attribute::Joints, storage, buffers, items)
    &&& storage.sparse is None && items is Some ==> forall|k: int, c: int|
        0 <= k < items->0.len() && 0 <= c < 4 ==> #[trigger] items->0[k][c] == stored16(
            attribute_bytes(storage, buffers),
            component_start(Attribute::Joints, storage, k, c),
            storage.accessor.component,
        )
}

/// Whether the indices without sparse replacements are those stored.
pub open spec fn holds_indices(
    storage: Storage,
    buffers: Seq<Seq<u8>>,
    items: Option<Seq<u32>>,
) -> bool {
    &&& holds_all(Attribute::Indices, storage, buffers, items)
    &&& storage.sparse is None && items is Some ==> forall|k: int|
        0 <= k < items->0.len() ==> #[trigger] items->0[k] == stored32(
            attribute_bytes(storage, buffers),
            component_start(Attribute::Indices, storage, k, 0),
            storage.accessor.component,
        )
}

/// The bit patterns that `gltf::mesh::Reader::read_positions` yields for items
/// stored like this.
pub uninterp spec fn positions_read(storage: Storage, buffers: Seq<Seq<u8>>) -> Option<Seq<[u32; 3]>>;

/// The bit patterns that `gltf::mesh::Reader::read_normals` yields for items
/// stored like this.
pub uninterp spec fn normals_read(storage: Storage, buffers: Seq<Seq<u8>>) -> Option<Seq<[u32; 3]>>;

/// The bit patterns that `gltf::mesh::Reader::read_tex_coords` yields for set 0,
/// as floats, for items stored like this.
pub uninterp spec fn tex_coords_read(storage: Storage, buffers: Seq<Seq<u8>>) -> Option<Seq<[u32; 2]>>;

/// What `gltf::mesh::Reader::read_joints` yields for set 0, as 16-bit numbers,
/// for items stored like this.
pub uninterp spec fn joints_read(storage: Storage, buffers: Seq<Seq<u8>>) -> Option<Seq<[u16; 4]>>;

/// The bit patterns that `gltf::mesh::Reader::read_weights` yields for set 0,
/// as floats, for items stored like this.
pub uninterp spec fn weights_read(storage: Storage, buffers: Seq<Seq<u8>>) -> Option<Seq<[u32; 4]>>;

/// What `gltf::mesh::Reader::read_indices` yields, as 32-bit numbers, for items
/// stored like this.
pub uninterp spec fn indices_read(storage: Storage, buffers: Seq<Seq<u8>>) -> Option<Seq<u32>>;

/// Where the items of an attribute of a primitive of a parsed file are stored.
pub open spec fn file_storage(
    file: gltf::Gltf,
    mesh: usize,
    primitive: usize,
    attribute: Attribute,
) -> Storage {
    storage_of(
        document_of(file)->0,
        document_of(file)->0.meshes[mesh as int][primitive as int],
        attribute,
    )->0
}

/// Calls `gltf::mesh::Reader::read_positions` and takes each float as its bits.
/// Claims that the outcome is a function of where the items are stored and of
/// the buffers. Of an attribute without sparse replacements it says when there
/// is an outcome, how many items it has and what they are; how sparse
/// replacements are merged in is left unsaid.
#[verifier::external_body]
pub(crate) fn read_positions(
    file: &gltf::Gltf,
    mesh: usize,
    primitive: usize,
    buffers: &Vec<Vec<u8>>,
) -> (items: Option<Vec<[u32; 3]>>)
    requires
        document_of(*file) is Some,
        attribute_readable(
            document_of(*file)->0,
            mesh as int,
            primitive as int,
            Attribute::Position,
            buffers@.len(),
        ),
    ensures
        option_items(items) == positions_read(
            file_storage(*file, mesh, primitive, Attribute::Position),
            lists_of(buffers@),
        ),
        holds_floats(
            Attribute::Position,
            file_storage(*file, mesh, primitive, Attribute::Position),
            lists_of(buffers@),
            option_items(items),
        ),
{
    let mesh = file.document.meshes().nth(mesh)?;
    let primitive = mesh.primitives().nth(primitive)?;
    let reader = primitive.reader(|buffer| Some(buffers[buffer.index()].as_slice()));
    Some(reader.read_positions()?.map(|item| item.map(|x| x.to_bits())).collect())
}

/// Calls `gltf::mesh::Reader::read_normals` and takes each float as its bits.
/// Claims that the outcome is a function of where the items are stored and of
/// the buffers. Of an attribute without sparse replacements it says when there
/// is an outcome, how many items it has and what they are; how sparse
/// replacements are merged in is left unsaid.
#[verifier::external_body]
pub(crate) fn read_normals(
    file: &gltf::Gltf,
    mesh: usize,
    primitive: usize,
    buffers: &Vec<Vec<u8>>,
) -> (items: Option<Vec<[u32; 3]>>)
    requires
        document_of(*file) is Some,
        attribute_readable(
            document_of(*file)->0,
            mesh as int,
            primitive as int,
            Attribute::Normal,
            buffers@.len(),
        ),
    ensures
        option_items(items) == normals_read(
            file_storage(*file, mesh, primitive, Attribute::Normal),
            lists_of(buffers@),
        ),
        holds_floats(
            Attribute::Normal,
            file_storage(*file, mesh, primitive, Attribute::Normal),
            lists_of(buffers@),
            option_items(items),
        ),
{
    let mesh = file.document.meshes().nth(mesh)?;
    let primitive = mesh.primitives().nth(primitive)?;
    let reader = primitive.reader(|buffer| Some(buffers[buffer.index()].as_slice()));
    Some(reader.read_normals()?.map(|item| item.map(|x| x.to_bits())).collect())
}

/// Calls `gltf::mesh::Reader::read_tex_coords` for set 0, converts to floats and
/// takes each float as its bits.
/// Claims that the outcome is a function of where the items are stored and of
/// the buffers. Of an attribute without sparse replacements it says when there
/// is an outcome, how many items it has and what they are where they are stored
/// as floats; the value of a normalised integer, and how sparse replacements
/// are merged in, is left unsaid.
#[verifier::external_body]
pub(crate) fn read_tex_coords(
    file: &gltf::Gltf,
    mesh: usize,
    primitive: usize,
    buffers: &Vec<Vec<u8>>,
) -> (items: Option<Vec<[u32; 2]>>)
    requires
        document_of(*file) is Some,
        attribute_readable(
            document_of(*file)->0,
            mesh as int,
            primitive as int,
            Attribute::TexCoord,
            buffers@.len(),
        ),
    ensures
        option_items(items) == tex_coords_read(
            file_storage(*file, mesh, primitive, Attribute::TexCoord),
            lists_of(buffers@),
        ),
        holds_floats(
            Attribute::TexCoord,
            file_storage(*file, mesh, primitive, Attribute::TexCoord),
            lists_of(buffers@),
            option_items(items),
        ),
{
    let mesh = file.document.meshes().nth(mesh)?;
    let primitive = mesh.primitives().nth(primitive)?;
    let reader = primitive.reader(|buffer| Some(buffers[buffer.index()].as_slice()));
    Some(reader.read_tex_coords(0)?.into_f32().map(|item| item.map(|x| x.to_bits())).collect())
}

/// Calls `gltf::mesh::Reader::read_joints` for set 0 and widens to 16 bits.
/// Claims that the outcome is a function of where the items are stored and of
/// the buffers. Of an attribute without sparse replacements it says when there
/// is an outcome, how many items it has and what they are; how sparse
/// replacements are merged in is left unsaid.
#[verifier::external_body]
pub(crate) fn read_joints(
    file: &gltf::Gltf,
    mesh: usize,
    primitive: usize,
    buffers: &Vec<Vec<u8>>,
) -> (items: Option<Vec<[u16; 4]>>)
    requires
        document_of(*file) is Some,
        attribute_readable(
            document_of(*file)->0,
            mesh as int,
            primitive as int,
            Attribute::Joints,
            buffers@.len(),
        ),
    ensures
        option_items(items) == joints_read(
            file_storage(*file, mesh, primitive, Attribute::Joints),
            lists_of(buffers@),
        ),
        holds_joints(
            file_storage(*file, mesh, primitive, Attribute::Joints),
            lists_of(buffers@),
            option_items(items),
        ),
{
    let mesh = file.document.meshes().nth(mesh)?;
    let primitive = mesh.primitives().nth(primitive)?;
    let reader = primitive.reader(|buffer| Some(buffers[buffer.index()].as_slice()));
    Some(reader.read_joints(0)?.into_u16().collect())
}

/// Calls `gltf::mesh::Reader::read_weights` for set 0, converts to floats and
/// takes each float as its bits.
/// Claims that the outcome is a function of where the items are stored and of
/// the buffers. Of an attribute without sparse replacements it says when there
/// is an outcome, how many items it has and what they are where they are stored
/// as floats; the value of a normalised integer, and how sparse replacements
/// are merged in, is left unsaid.
#[verifier::external_body]
pub(crate) fn read_weights(
    file: &gltf::Gltf,
    mesh: usize,
    primitive: usize,
    buffers: &Vec<Vec<u8>>,
) -> (items: Option<Vec<[u32; 4]>>)
    requires
        document_of(*file) is Some,
        attribute_readable(
            document_of(*file)->0,
            mesh as int,
            primitive as int,
            Attribute::Weights,
            buffers@.len(),
        ),
    ensures
        option_items(items) == weights_read(
            file_storage(*file, mesh, primitive, Attribute::Weights),
            lists_of(buffers@),
        ),
        holds_floats(
            Attribute::Weights,
            file_storage(*file, mesh, primitive, Attribute::Weights),
            lists_of(buffers@),
            option_items(items),
        ),
{
    let mesh = file.document.meshes().nth(mesh)?;
    let primitive = mesh.primitives().nth(primitive)?;
    let reader = primitive.reader(|buffer| Some(buffers[buffer.index()].as_slice()));
    Some(reader.read_weights(0)?.into_f32().map(|item| item.map(|x| x.to_bits())).collect())
}

/// Calls `gltf::mesh::Reader::read_indices` and widens to 32 bits.
/// Claims that the outcome is a function of where the items are stored and of
/// the buffers. Of an attribute without sparse replacements it says when there
/// is an outcome, how many items it has and what they are; how sparse
/// replacements are merged in is left unsaid.
#[verifier::external_body]
pub(crate) fn read_indices(
    file: &gltf::Gltf,
    mesh: usize,
    primitive: usize,
    buffers: &Vec<Vec<u8>>,
) -> (items: Option<Vec<u32>>)
    requires
        document_of(*file) is Some,
        attribute_readable(
            document_of(*file)->0,
            mesh as int,
            primitive as int,
            Attribute::Indices,
            buffers@.len(),
        ),
    ensures
        option_items(items) == indices_read(
            file_storage(*file, mesh, primitive, Attribute::Indices),
            lists_of(buffers@),
        ),
        holds_indices(
            file_storage(*file, mesh, primitive, Attribute::Indices),
            lists_of(buffers@),
            option_items(items),
        ),
{
    let mesh = file.document.meshes().nth(mesh)?;
    let primitive = mesh.primitives().nth(primitive)?;
    let reader = primitive.reader(|buffer| Some(buffers[buffer.index()].as_slice()));
    Some(reader.read_indices()?.into_u32().collect())
}

} // verus!
