//! What can be wrong with a glTF part file, and how to say it.

use vstd::prelude::*;

use crate::text::{decimal, push_decimal};

verus! {

/// How the vertices of a primitive connect.
#[derive(Clone, Copy, Debug, PartialEq, Eq)]
pub enum Mode {
    Points,
    Lines,
    LineLoop,
    LineStrip,
    Triangles,
    TriangleStrip,
    TriangleFan,
}

/// The topology with this `GLenum`.
pub open spec fn mode_of_spec(code: u32) -> Mode {
    if code == 0 {
        Mode::Points
    } else if code == 1 {
        Mode::Lines
    } else if code == 2 {
        Mode::LineLoop
    } else if code == 3 {
        Mode::LineStrip
    } else if code == 4 {
        Mode::Triangles
    } else if code == 5 {
        Mode::TriangleStrip
    } else {
        Mode::TriangleFan
    }
}

/// The topology with this `GLenum`.
#[verifier::when_used_as_spec(mode_of_spec)]
pub fn mode_of(code: u32) -> (mode: Mode)
    requires
        code <= 6,
    ensures
        mode == mode_of_spec(code),
{
    match code {
        0 => Mode::Points,
        1 => Mode::Lines,
        2 => Mode::LineLoop,
        3 => Mode::LineStrip,
        4 => Mode::Triangles,
        5 => Mode::TriangleStrip,
        _ => Mode::TriangleFan,
    }
}

/// The name of a topology.
pub open spec fn mode_text(mode: Mode) -> Seq<char> {
    match mode {
        Mode::Points => "Points"@,
        Mode::Lines => "Lines"@,
        Mode::LineLoop => "LineLoop"@,
        Mode::LineStrip => "LineStrip"@,
        Mode::Triangles => "Triangles"@,
        Mode::TriangleStrip => "TriangleStrip"@,
        Mode::TriangleFan => "TriangleFan"@,
    }
}

impl Mode {
    /// The name of the topology.
    pub fn name(&self) -> (text: &'static str)
        ensures
            text@ == mode_text(*self),
    {
        match self {
            Mode::Points => "Points",
            Mode::Lines => "Lines",
            Mode::LineLoop => "LineLoop",
            Mode::LineStrip => "LineStrip",
            Mode::Triangles => "Triangles",
            Mode::TriangleStrip => "TriangleStrip",
            Mode::TriangleFan => "TriangleFan",
        }
    }
}

/// All the ways in which loading a single part can fail.
#[derive(Debug)]
pub enum GltfLoadError {
    /// The file could not be opened, or is no glTF at all.
    Parse { path: String, source: String },
    /// The document holds no mesh.
    NoMeshes { path: String },
    /// A primitive is not a list of triangles.
    UnsupportedTopology {
        path: String,
        mesh_index: usize,
        primitive_index: usize,
        mode: Mode,
    },
    /// A primitive lacks a vertex attribute, or has one that cannot be read.
    MissingAccessor {
        path: String,
        mesh_index: usize,
        primitive_index: usize,
        accessor: &'static str,
    },
    /// A primitive has no index list, or one that cannot be read.
    MissingIndices { path: String, mesh_index: usize, primitive_index: usize },
    /// The vertex attributes of a primitive disagree in length.
    AttributeLengthMismatch {
        path: String,
        mesh_index: usize,
        primitive_index: usize,
        attribute: &'static str,
        expected: usize,
        found: usize,
    },
    /// No node shows the mesh with a skin.
    NoSkin { path: String, mesh_index: usize },
    /// A joint of the skin has no name to find it by in the master skeleton.
    UnnamedJoint { path: String, joint_index: usize },
    /// The data of a buffer could not be had.
    BufferSource { path: String, buffer_index: usize, reason: String },
    /// A buffer holds fewer bytes than the document declares for it.
    BufferTooShort {
        path: String,
        buffer_index: usize,
        declared_len: usize,
        actual_len: usize,
    },
    /// An index of a primitive refers past the primitive's own vertices.
    IndexOutOfRange {
        path: String,
        mesh_index: usize,
        primitive_index: usize,
        index: u32,
        vertex_count: usize,
    },
}

/// What a [`GltfLoadError`] says, over mathematical text.
pub enum GltfFault {
    Parse { path: Seq<char>, source: Seq<char> },
    NoMeshes { path: Seq<char> },
    UnsupportedTopology {
        path: Seq<char>,
        mesh_index: usize,
        primitive_index: usize,
        mode: Mode,
    },
    MissingAccessor {
        path: Seq<char>,
        mesh_index: usize,
        primitive_index: usize,
        accessor: Seq<char>,
    },
    MissingIndices { path: Seq<char>, mesh_index: usize, primitive_index: usize },
    AttributeLengthMismatch {
        path: Seq<char>,
        mesh_index: usize,
        primitive_index: usize,
        attribute: Seq<char>,
        expected: usize,
        found: usize,
    },
    NoSkin { path: Seq<char>, mesh_index: usize },
    UnnamedJoint { path: Seq<char>, joint_index: usize },
    BufferSource { path: Seq<char>, buffer_index: usize, reason: Seq<char> },
    BufferTooShort {
        path: Seq<char>,
        buffer_index: usize,
        declared_len: usize,
        actual_len: usize,
    },
    IndexOutOfRange {
        path: Seq<char>,
        mesh_index: usize,
        primitive_index: usize,
        index: u32,
        vertex_count: usize,
    },
}

impl View for GltfLoadError {
    type V = GltfFault;

    open spec fn view(&self) -> GltfFault {
        match *self {
            GltfLoadError::Parse { path, source } => GltfFault::Parse {
                path: path@,
                source: source@,
            },
            GltfLoadError::NoMeshes { path } => GltfFault::NoMeshes { path: path@ },
            GltfLoadError::UnsupportedTopology { path, mesh_index, primitive_index, mode } =>
                GltfFault::UnsupportedTopology { path: path@, mesh_index, primitive_index, mode },
            GltfLoadError::MissingAccessor { path, mesh_index, primitive_index, accessor } =>
                GltfFault::MissingAccessor {
                path: path@,
                mesh_index,
                primitive_index,
                accessor: accessor@,
            },
            GltfLoadError::MissingIndices { path, mesh_index, primitive_index } =>
                GltfFault::MissingIndices { path: path@, mesh_index, primitive_index },
            GltfLoadError::AttributeLengthMismatch {
                path,
                mesh_index,
                primitive_index,
                attribute,
                expected,
                found,
            } => GltfFault::AttributeLengthMismatch {
                path: path@,
                mesh_index,
                primitive_index,
                attribute: attribute@,
                expected,
                found,
            },
            GltfLoadError::NoSkin { path, mesh_index } => GltfFault::NoSkin {
                path: path@,
                mesh_index,
            },
            GltfLoadError::UnnamedJoint { path, joint_index } => GltfFault::UnnamedJoint {
                path: path@,
                joint_index,
            },
            GltfLoadError::BufferSource { path, buffer_index, reason } => GltfFault::BufferSource {
                path: path@,
                buffer_index,
                reason: reason@,
            },
            GltfLoadError::BufferTooShort { path, buffer_index, declared_len, actual_len } =>
                GltfFault::BufferTooShort { path: path@, buffer_index, declared_len, actual_len },
            GltfLoadError::IndexOutOfRange {
                path,
                mesh_index,
                primitive_index,
                index,
                vertex_count,
            } => GltfFault::IndexOutOfRange {
                path: path@,
                mesh_index,
                primitive_index,
                index,
                vertex_count,
            },
        }
    }
}

/// How a message about a primitive begins.
pub open spec fn primitive_text(path: Seq<char>, mesh: usize, primitive: usize) -> Seq<char> {
    "'"@ + path + "' mesh["@ + decimal(mesh as nat) + "] primitive["@ + decimal(primitive as nat)
        + "]"@
}

/// The message of an error.
pub open spec fn gltf_message(fault: GltfFault) -> Seq<char> {
    match fault {
        GltfFault::Parse { path, source } => "failed to parse '"@ + path + "': "@ + source,
        GltfFault::NoMeshes { path } => "'"@ + path + "' contains no meshes"@,
        GltfFault::UnsupportedTopology { path, mesh_index, primitive_index, mode } =>
            primitive_text(path, mesh_index, primitive_index) + " uses unsupported topology "@
            + mode_text(mode) + " (only Triangles is supported)"@,
        GltfFault::MissingAccessor { path, mesh_index, primitive_index, accessor } =>
            primitive_text(path, mesh_index, primitive_index)
            + " is missing required accessor '"@ + accessor + "'"@,
        GltfFault::MissingIndices { path, mesh_index, primitive_index } => primitive_text(
            path,
            mesh_index,
            primitive_index,
        ) + " has no index accessor (non-indexed primitives are not supported)"@,
        GltfFault::AttributeLengthMismatch {
            path,
            mesh_index,
            primitive_index,
            attribute,
            expected,
            found,
        } => primitive_text(path, mesh_index, primitive_index) + " attribute '"@ + attribute
            + "' has "@ + decimal(found as nat) + " elements, expected "@ + decimal(
            expected as nat,
        ),
        GltfFault::NoSkin { path, mesh_index } => "'"@ + path + "' mesh["@ + decimal(
            mesh_index as nat,
        )
            + "] has no skin attached to any referencing node; modular parts must be skinned"@,
        GltfFault::UnnamedJoint { path, joint_index } => "'"@ + path + "' skin joint["@ + decimal(
            joint_index as nat,
        ) + "] has no node name and cannot be resolved against the master skeleton"@,
        GltfFault::BufferSource { path, buffer_index, reason } => "'"@ + path + "' buffer["@
            + decimal(buffer_index as nat) + "] could not be loaded: "@ + reason,
        GltfFault::BufferTooShort { path, buffer_index, declared_len, actual_len } => "'"@ + path
            + "' buffer["@ + decimal(buffer_index as nat) + "] declares "@ + decimal(
            declared_len as nat,
        ) + " bytes but only "@ + decimal(actual_len as nat) + " were available"@,
        GltfFault::IndexOutOfRange { path, mesh_index, primitive_index, index, vertex_count } =>
            primitive_text(path, mesh_index, primitive_index)
            + " index accessor references vertex "@ + decimal(index as nat)
            + ", but this primitive only has "@ + decimal(vertex_count as nat) + " vertices"@,
    }
}

/// Appends how a message about a primitive begins.
fn push_primitive(out: &mut String, path: &str, mesh: usize, primitive: usize)
    ensures
        final(out)@ == old(out)@ + primitive_text(path@, mesh, primitive),
{
    out.append("'");
    out.append(path);
    out.append("' mesh[");
    push_decimal(out, mesh as u64);
    out.append("] primitive[");
    push_decimal(out, primitive as u64);
    out.append("]");
}

impl GltfLoadError {
    /// The error that this one came of.
    pub fn source(&self) -> (source: Option<&str>)
        ensures
            match self@ {
                GltfFault::Parse { source: text, .. } => source is Some && source->0@ == text,
                _ => source is None,
            },
    {
        match self {
            GltfLoadError::Parse { source, .. } => Some(source.as_str()),
            _ => None,
        }
    }

    /// The message to show to a person.
    pub fn message(&self) -> (text: String)
        ensures
            text@ == gltf_message(self@),
    {
        let mut out = String::new();
        match self {
            GltfLoadError::Parse { path, source } => {
                out.append("failed to parse '");
                out.append(path.as_str());
                out.append("': ");
                out.append(source.as_str());
            },
            GltfLoadError::NoMeshes { path } => {
                out.append("'");
                out.append(path.as_str());
                out.append("' contains no meshes");
            },
            GltfLoadError::UnsupportedTopology { path, mesh_index, primitive_index, mode } => {
                push_primitive(&mut out, path.as_str(), *mesh_index, *primitive_index);
                out.append(" uses unsupported topology ");
                out.append(mode.name());
                out.append(" (only Triangles is supported)");
            },
            GltfLoadError::MissingAccessor { path, mesh_index, primitive_index, accessor } => {
                push_primitive(&mut out, path.as_str(), *mesh_index, *primitive_index);
                out.append(" is missing required accessor '");
                out.append(accessor);
                out.append("'");
            },
            GltfLoadError::MissingIndices { path, mesh_index, primitive_index } => {
                push_primitive(&mut out, path.as_str(), *mesh_index, *primitive_index);
                out.append(" has no index accessor (non-indexed primitives are not supported)");
            },
            GltfLoadError::AttributeLengthMismatch {
                path,
                mesh_index,
                primitive_index,
                attribute,
                expected,
                found,
            } => {
                push_primitive(&mut out, path.as_str(), *mesh_index, *primitive_index);
                out.append(" attribute '");
                out.append(attribute);
                out.append("' has ");
                push_decimal(&mut out, *found as u64);
                out.append(" elements, expected ");
                push_decimal(&mut out, *expected as u64);
            },
            GltfLoadError::NoSkin { path, mesh_index } => {
                out.append("'");
                out.append(path.as_str());
                out.append("' mesh[");
                push_decimal(&mut out, *mesh_index as u64);
                out.append(
                    "] has no skin attached to any referencing node; modular parts must be skinned",
                );
            },
            GltfLoadError::UnnamedJoint { path, joint_index } => {
                out.append("'");
                out.append(path.as_str());
                out.append("' skin joint[");
                push_decimal(&mut out, *joint_index as u64);
                out.append(
                    "] has no node name and cannot be resolved against the master skeleton",
                );
            },
            GltfLoadError::BufferSource { path, buffer_index, reason } => {
                out.append("'");
                out.append(path.as_str());
                out.append("' buffer[");
                push_decimal(&mut out, *buffer_index as u64);
                out.append("] could not be loaded: ");
                out.append(reason.as_str());
            },
            GltfLoadError::BufferTooShort { path, buffer_index, declared_len, actual_len } => {
                out.append("'");
                out.append(path.as_str());
                out.append("' buffer[");
                push_decimal(&mut out, *buffer_index as u64);
                out.append("] declares ");
                push_decimal(&mut out, *declared_len as u64);
                out.append(" bytes but only ");
                push_decimal(&mut out, *actual_len as u64);
                out.append(" were available");
            },
            GltfLoadError::IndexOutOfRange {
                path,
                mesh_index,
                primitive_index,
                index,
                vertex_count,
            } => {
                push_primitive(&mut out, path.as_str(), *mesh_index, *primitive_index);
                out.append(" index accessor references vertex ");
                push_decimal(&mut out, *index as u64);
                out.append(", but this primitive only has ");
                push_decimal(&mut out, *vertex_count as u64);
                out.append(" vertices");
            },
        }
        out
    }
}

} // verus!
