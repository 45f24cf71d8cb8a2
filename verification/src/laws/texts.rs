//! Numbers in decimal, and what errors say.

use vstd::prelude::*;

use crate::gltf_error::{gltf_message, mode_text, GltfFault, GltfLoadError, Mode};
use crate::registry::{anchor_message, AnchorFault};
use crate::skeleton_resolver::{skeleton_message, SkeletonError, SkeletonFault};
use crate::text::{decimal, digit_char};

verus! {

/// The number that a row of decimal digits stands for, read from the left.
pub open spec fn number_read(text: Seq<char>, so_far: nat) -> nat
    decreases text.len(),
{
    if text.len() == 0 {
        so_far
    } else {
        number_read(text.skip(1), (10 * so_far + (text[0] as u32 - '0' as u32)) as nat)
    }
}

/// Reading one digit more multiplies by ten and adds it.
proof fn lemma_number_read_push(text: Seq<char>, digit: char, so_far: nat)
    ensures
        number_read(text.push(digit), so_far) == (10 * number_read(text, so_far) + (digit as u32
            - '0' as u32)) as nat,
    decreases text.len(),
{
    reveal_with_fuel(number_read, 2);
    if text.len() == 0 {
        assert(text.push(digit).skip(1) == text);
    } else {
        assert(text.push(digit).skip(1) == text.skip(1).push(digit));
        lemma_number_read_push(
            text.skip(1),
            digit,
            (10 * so_far + (text[0] as u32 - '0' as u32)) as nat,
        );
    }
}

/// The decimal notation of a number reads as that number, has nothing in it but
/// digits, and does not start with a zero unless it is zero.
pub proof fn law_decimal_notation_reads_as_the_number(n: nat)
    ensures
        number_read(decimal(n), 0) == n,
        decimal(n).len() >= 1,
        forall|i: int| 0 <= i < decimal(n).len() ==> '0' <= (#[trigger] decimal(n)[i]) <= '9',
        n > 0 ==> decimal(n)[0] != '0',
    decreases n,
{
    if n < 10 {
        let text = seq![digit_char(n)];
        assert(text == Seq::<char>::empty().push(digit_char(n)));
        lemma_number_read_push(Seq::<char>::empty(), digit_char(n), 0);
    } else {
        law_decimal_notation_reads_as_the_number(n / 10);
        lemma_number_read_push(decimal(n / 10), digit_char(n % 10), 0);
    }
}

/// Different numbers look different.
pub proof fn law_different_numbers_look_different(n: nat, m: nat)
    requires
        decimal(n) == decimal(m),
    ensures
        n == m,
{
    law_decimal_notation_reads_as_the_number(n);
    law_decimal_notation_reads_as_the_number(m);
}

/// What is said of a part file names the file, and where in it something is
/// wrong, and what.
pub proof fn law_a_load_error_tells_where_and_what(
    path: Seq<char>,
    text: Seq<char>,
    mesh: usize,
    primitive: usize,
    first: usize,
    second: usize,
    index: u32,
    mode: Mode,
)
    ensures
        ({
            let place = "'"@ + path + "' mesh["@ + decimal(mesh as nat) + "] primitive["@ + decimal(
                primitive as nat,
            ) + "]"@;
            &&& gltf_message(GltfFault::Parse { path, source: text }) == "failed to parse '"@ + path
                + "': "@ + text
            &&& gltf_message(GltfFault::NoMeshes { path }) == "'"@ + path + "' contains no meshes"@
            &&& gltf_message(
                GltfFault::UnsupportedTopology {
                    path,
                    mesh_index: mesh,
                    primitive_index: primitive,
                    mode,
                },
            ) == place + " uses unsupported topology "@ + mode_text(mode)
                + " (only Triangles is supported)"@
            &&& gltf_message(
                GltfFault::MissingAccessor {
                    path,
                    mesh_index: mesh,
                    primitive_index: primitive,
                    accessor: text,
                },
            ) == place + " is missing required accessor '"@ + text + "'"@
            &&& gltf_message(
                GltfFault::MissingIndices { path, mesh_index: mesh, primitive_index: primitive },
            ) == place + " has no index accessor (non-indexed primitives are not supported)"@
            &&& gltf_message(
                GltfFault::AttributeLengthMismatch {
                    path,
                    mesh_index: mesh,
                    primitive_index: primitive,
                    attribute: text,
                    expected: first,
                    found: second,
                },
            ) == place + " attribute '"@ + text + "' has "@ + decimal(second as nat)
                + " elements, expected "@ + decimal(first as nat)
            &&& gltf_message(GltfFault::NoSkin { path, mesh_index: mesh }) == "'"@ + path
                + "' mesh["@ + decimal(mesh as nat)
                + "] has no skin attached to any referencing node; modular parts must be skinned"@
            &&& gltf_message(GltfFault::UnnamedJoint { path, joint_index: first }) == "'"@ + path
                + "' skin joint["@ + decimal(first as nat)
                + "] has no node name and cannot be resolved against the master skeleton"@
            &&& gltf_message(GltfFault::BufferSource { path, buffer_index: first, reason: text })
                == "'"@ + path + "' buffer["@ + decimal(first as nat) + "] could not be loaded: "@
                + text
            &&& gltf_message(
                GltfFault::BufferTooShort {
                    path,
                    buffer_index: mesh,
                    declared_len: first,
                    actual_len: second,
                },
            ) == "'"@ + path + "' buffer["@ + decimal(mesh as nat) + "] declares "@ + decimal(
                first as nat,
            ) + " bytes but only "@ + decimal(second as nat) + " were available"@
            &&& gltf_message(
                GltfFault::IndexOutOfRange {
                    path,
                    mesh_index: mesh,
                    primitive_index: primitive,
                    index,
                    vertex_count: first,
                },
            ) == place + " index accessor references vertex "@ + decimal(index as nat)
                + ", but this primitive only has "@ + decimal(first as nat) + " vertices"@
        }),
{
}

/// A topology is called by its name.
pub proof fn law_topologies_have_their_names(mode: Mode)
    ensures
        mode_text(mode) == (if mode == Mode::Points {
            "Points"@
        } else if mode == Mode::Lines {
            "Lines"@
        } else if mode == Mode::LineLoop {
            "LineLoop"@
        } else if mode == Mode::LineStrip {
            "LineStrip"@
        } else if mode == Mode::Triangles {
            "Triangles"@
        } else if mode == Mode::TriangleStrip {
            "TriangleStrip"@
        } else {
            "TriangleFan"@
        }),
{
}

/// What is said of a skeleton, or of a part that does not fit it, names the
/// file, the bone, or the vertex and the joint.
pub proof fn law_a_skeleton_error_tells_where_and_what(
    path: Seq<char>,
    text: Seq<char>,
    vertex: usize,
    local_index: u16,
    count: usize,
)
    ensures
        skeleton_message(SkeletonFault::Io { path, source: text }) == "failed to read '"@ + path
            + "': "@ + text,
        skeleton_message(SkeletonFault::Parse { path, source: text }) == "failed to parse '"@ + path
            + "' as JSON: "@ + text,
        skeleton_message(SkeletonFault::UnknownBone { bone_name: text, local_joint_index: count })
            == "bone '"@ + text + "' (local joint index "@ + decimal(count as nat)
            + ") does not exist in master_skeleton.json; part is incompatible with the master rig"@,
        skeleton_message(
            SkeletonFault::LocalJointIndexOutOfRange {
                vertex_index: vertex,
                local_index,
                local_joint_count: count,
            },
        ) == "vertex["@ + decimal(vertex as nat) + "] references local joint index "@ + decimal(
            local_index as nat,
        ) + ", but the part only defines "@ + decimal(count as nat) + " joints"@,
{
}

/// What is said of anchors that cannot be had names the part that is missing, or
/// the work that failed.
pub proof fn law_an_anchor_error_tells_what_is_missing(id: u32, text: Seq<char>)
    ensures
        anchor_message(AnchorFault::UnknownHeadId(id)) == "no part loaded for head_id "@ + decimal(
            id as nat,
        ),
        anchor_message(AnchorFault::UnknownTorsoId(id)) == "no part loaded for torso_id "@
            + decimal(id as nat),
        anchor_message(AnchorFault::UnknownClothingId(id)) == "no part loaded for clothing_id "@
            + decimal(id as nat),
        anchor_message(AnchorFault::MeshMerge(text)) == "failed to merge head/torso parts: "@
            + text,
        anchor_message(AnchorFault::Deformer(text)) == "clothing deformer failed: "@ + text,
{
}

/// An error of a part file is what it was made with.
pub proof fn law_a_load_error_is_what_it_holds(error: GltfLoadError)
    ensures
        error matches GltfLoadError::Parse { path, source } ==> error@ == (GltfFault::Parse {
            path: path@,
            source: source@,
        }),
        error matches GltfLoadError::NoMeshes { path } ==> error@ == (GltfFault::NoMeshes {
            path: path@,
        }),
        error matches GltfLoadError::UnsupportedTopology {
            path,
            mesh_index,
            primitive_index,
            mode,
        } ==> error@ == (GltfFault::UnsupportedTopology {
            path: path@,
            mesh_index,
            primitive_index,
            mode,
        }),
        error matches GltfLoadError::MissingAccessor {
            path,
            mesh_index,
            primitive_index,
            accessor,
        } ==> error@ == (GltfFault::MissingAccessor {
            path: path@,
            mesh_index,
            primitive_index,
            accessor: accessor@,
        }),
        error matches GltfLoadError::MissingIndices { path, mesh_index, primitive_index } ==> error@
            == (GltfFault::MissingIndices { path: path@, mesh_index, primitive_index }),
        error matches GltfLoadError::AttributeLengthMismatch {
            path,
            mesh_index,
            primitive_index,
            attribute,
            expected,
            found,
        } ==> error@ == (GltfFault::AttributeLengthMismatch {
            path: path@,
            mesh_index,
            primitive_index,
            attribute: attribute@,
            expected,
            found,
        }),
        error matches GltfLoadError::NoSkin { path, mesh_index } ==> error@ == (GltfFault::NoSkin {
            path: path@,
            mesh_index,
        }),
        error matches GltfLoadError::UnnamedJoint { path, joint_index } ==> error@ == (
        GltfFault::UnnamedJoint { path: path@, joint_index }),
        error matches GltfLoadError::BufferSource { path, buffer_index, reason } ==> error@ == (
        GltfFault::BufferSource { path: path@, buffer_index, reason: reason@ }),
        error matches GltfLoadError::BufferTooShort {
            path,
            buffer_index,
            declared_len,
            actual_len,
        } ==> error@ == (GltfFault::BufferTooShort {
            path: path@,
            buffer_index,
            declared_len,
            actual_len,
        }),
        error matches GltfLoadError::IndexOutOfRange {
            path,
            mesh_index,
            primitive_index,
            index,
            vertex_count,
        } ==> error@ == (GltfFault::IndexOutOfRange {
            path: path@,
            mesh_index,
            primitive_index,
            index,
            vertex_count,
        }),
{
}

/// An error of a skeleton is what it was made with.
pub proof fn law_a_skeleton_error_is_what_it_holds(error: SkeletonError)
    ensures
        error matches SkeletonError::Io { path, source } ==> error@ == (SkeletonFault::Io {
            path: path@,
            source: source@,
        }),
        error matches SkeletonError::Parse { path, source } ==> error@ == (SkeletonFault::Parse {
            path: path@,
            source: source@,
        }),
        error matches SkeletonError::UnknownBone { bone_name, local_joint_index } ==> error@ == (
        SkeletonFault::UnknownBone { bone_name: bone_name@, local_joint_index }),
        error matches SkeletonError::LocalJointIndexOutOfRange {
            vertex_index,
            local_index,
            local_joint_count,
        } ==> error@ == (SkeletonFault::LocalJointIndexOutOfRange {
            vertex_index,
            local_index,
            local_joint_count,
        }),
{
}

} // verus!
