//! Filling the registry from an asset folder.

use vstd::prelude::*;

use crate::init::{
    aligned_part, dir_fault, dir_path, entry_verdict, with_part, BuilderSpec, DirArgument,
    EntryVerdict,
};
use crate::laws::alignment::law_slots_hold_the_master_index_of_their_bone;
use crate::mesh_assembly::{LoadedMesh, MeshSpec};
use crate::part_file::{file_stem, id_of_stem, kind_of_name};
use crate::registry::PartSpec;

verus! {

/// What a part keeps of the mesh that was loaded for it: all its indices, in
/// order, and all its vertices, each with the position, normal, texture
/// coordinates and weights that it had, and with the master index of its bone
/// in each slot that has a weight.
pub proof fn law_a_part_keeps_its_mesh(
    mesh: MeshSpec,
    skeleton: Map<Seq<char>, u32>,
    v: int,
    s: int,
)
    requires
        0 <= v < mesh.vertices.len(),
        0 <= s < 4,
    ensures
        aligned_part(mesh, skeleton).indices.len() == mesh.indices.len(),
        forall|i: int|
            0 <= i < mesh.indices.len() ==> #[trigger] aligned_part(mesh, skeleton).indices[i]
                == mesh.indices[i],
        aligned_part(mesh, skeleton).vertices.len() == mesh.vertices.len(),
        ({
            let before = mesh.vertices[v];
            let after = aligned_part(mesh, skeleton).vertices[v];
            let weight = before.bone_weights[s];
            let index = skeleton[mesh.local_bone_names[before.bone_indices[s] as int]];
            &&& after.position == before.position
            &&& after.normal == before.normal
            &&& after.uv == before.uv
            &&& after.bone_weights == before.bone_weights
            &&& weight == 0x0000_0000 || weight == 0x8000_0000 ==> after.bone_indices[s]
                == before.bone_indices[s]
            &&& weight != 0x0000_0000 && weight != 0x8000_0000 ==> after.bone_indices[s] as int
                == (if index <= 65535 {
                index as int
            } else {
                65535
            })
        }),
{
    law_slots_hold_the_master_index_of_their_bone(
        mesh.vertices,
        mesh.local_bone_names,
        skeleton,
        v,
        s,
    );
}

/// A mesh without vertices keeps its indices too.
pub proof fn law_a_part_keeps_its_indices(mesh: MeshSpec, skeleton: Map<Seq<char>, u32>)
    ensures
        aligned_part(mesh, skeleton).indices == mesh.indices,
        aligned_part(mesh, skeleton).vertices.len() == mesh.vertices.len(),
{
}

/// A loaded mesh is its vertices, its indices and its names, all of them.
pub proof fn law_a_mesh_is_what_it_holds(mesh: LoadedMesh, i: int)
    ensures
        mesh@.vertices == mesh.vertices@,
        mesh@.indices == mesh.indices@,
        mesh@.local_bone_names.len() == mesh.local_bone_names@.len(),
        0 <= i < mesh.local_bone_names@.len() ==> mesh@.local_bone_names[i]
            == mesh.local_bone_names@[i]@,
{
}

/// A part that is added is found under its id, as it is, and nothing else of the
/// builder changes.
pub proof fn law_a_part_is_filed_under_its_id(
    b: BuilderSpec,
    part_id: u32,
    part: PartSpec,
    other: u32,
)
    ensures
        with_part(b, part_id, part).path == b.path,
        with_part(b, part_id, part).skeleton == b.skeleton,
        with_part(b, part_id, part).parts.contains_key(part_id),
        with_part(b, part_id, part).parts[part_id] == part,
        other != part_id ==> with_part(b, part_id, part).parts.contains_key(other)
            == b.parts.contains_key(other) && with_part(b, part_id, part).parts[other]
            == b.parts[other],
{
}

/// A folder is accepted if it has a name and exists, under exactly that name,
/// and refused with a message that says why not.
pub proof fn law_a_folder_has_to_exist(argument: DirArgument)
    ensures
        dir_fault(argument) is None <==> argument matches DirArgument::Named { is_dir: true, .. },
        argument matches DirArgument::Named { path, is_dir } ==> dir_path(argument) == path@,
        argument matches DirArgument::Named { path, is_dir: false } ==> dir_fault(argument)
            == Some("asset_dir '"@ + path@ + "' does not exist or is not a directory"@),
        argument is Null ==> dir_fault(argument) == Some("asset_dir pointer was null"@),
        argument matches DirArgument::NotUtf8(e) ==> dir_fault(argument) == Some(
            "asset_dir was not valid UTF-8: "@ + e@,
        ),
{
}

/// An entry of the folder is loaded if it is a file, its name has a known
/// extension, and its stem starts with a part id: with the loader for that
/// extension, and under that id.
pub proof fn law_an_entry_is_loaded_by_its_name(file_name: Option<Seq<u8>>, is_file: bool)
    ensures
        entry_verdict(file_name, is_file) matches EntryVerdict::Load { kind, part_id } ==> {
            &&& is_file
            &&& file_name matches Some(name) && kind_of_name(name) == Some(kind) && id_of_stem(
                file_stem(name),
            ) == Some(part_id)
        },
        entry_verdict(file_name, is_file) is NotAPart <==> !is_file || file_name is None
            || kind_of_name(file_name->0) is None,
        entry_verdict(file_name, is_file) is NoPartId <==> is_file && file_name is Some
            && kind_of_name(file_name->0) is Some && id_of_stem(file_stem(file_name->0)) is None,
{
}

} // verus!
