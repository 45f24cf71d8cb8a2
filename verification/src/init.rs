//! Filling the registry, once, from an asset folder.
//!
//! Listing the folder and reading its files is left to the caller, who hands
//! in what it finds: first the folder, with [`open_asset_dir`], then the
//! master skeleton, with [`AssetDir::read_skeleton`], then each entry, with
//! [`judge_entry`] and [`RegistryBuilder::add_part`], and in the end the place
//! for the registry, with [`RegistryBuilder::install`].

use std::collections::HashMap;

use vstd::prelude::*;

use crate::mesh_assembly::{LoadedMesh, MeshSpec};
use crate::part_file::{
    classify_part_file, file_stem, id_of_stem, kind_of_name, parse_part_id, PartFileKind,
};
use crate::registry::{fresh_registry, parts_of, PartData, PartSpec, Registry, RegistrySpec};
use crate::skeleton_resolver::{
    aligned, alignment_failed, can_align, load_master_skeleton, parsed_skeleton,
    resolve_bone_indices, skeleton_message, MasterSkeleton, SkeletonError, SkeletonFault,
};
use crate::vertex::SkinnedVertex;

verus! {

broadcast use vstd::std_specs::hash::group_hash_axioms;

/// A folder as named by a caller.
#[derive(Debug)]
pub enum DirArgument {
    /// No name at all.
    Null,
    /// A name that is not UTF-8, with the error that says where.
    NotUtf8(String),
    /// A name, and whether there is a folder of that name.
    Named { path: String, is_dir: bool },
}

/// What is wrong with a folder as named by a caller, if anything.
pub open spec fn dir_fault(argument: DirArgument) -> Option<Seq<char>> {
    match argument {
        DirArgument::Null => Some("asset_dir pointer was null"@),
        DirArgument::NotUtf8(e) => Some("asset_dir was not valid UTF-8: "@ + e@),
        DirArgument::Named { path, is_dir } => if is_dir {
            None
        } else {
            Some("asset_dir '"@ + path@ + "' does not exist or is not a directory"@)
        },
    }
}

/// The name of a folder as named by a caller.
pub open spec fn dir_path(argument: DirArgument) -> Seq<char> {
    match argument {
        DirArgument::Named { path, .. } => path@,
        _ => seq![],
    }
}

/// An asset folder that exists.
pub struct AssetDir {
    path: String,
}

impl View for AssetDir {
    type V = Seq<char>;

    closed spec fn view(&self) -> Seq<char> {
        self.path@
    }
}

/// Accepts a folder that has a name and exists.
pub fn open_asset_dir(argument: DirArgument) -> (r: Result<AssetDir, String>)
    ensures
        match r {
            Ok(dir) => dir_fault(argument) is None && dir@ == dir_path(argument),
            Err(message) => dir_fault(argument) == Some(message@),
        },
{
    match argument {
        DirArgument::Null => Err("asset_dir pointer was null".to_string()),
        DirArgument::NotUtf8(e) => {
            let mut message = "asset_dir was not valid UTF-8: ".to_string();
            message.append(e.as_str());
            Err(message)
        },
        DirArgument::Named { path, is_dir } => if is_dir {
            Ok(AssetDir { path })
        } else {
            let mut message = "asset_dir '".to_string();
            message.append(path.as_str());
            message.append("' does not exist or is not a directory");
            Err(message)
        },
    }
}

/// A registry in the making: the skeleton that parts are aligned with, and the
/// parts so far.
pub struct RegistryBuilder {
    path: String,
    skeleton: MasterSkeleton,
    parts: HashMap<u32, PartData>,
}

/// A [`RegistryBuilder`] over mathematical values.
pub struct BuilderSpec {
    pub path: Seq<char>,
    pub skeleton: Map<Seq<char>, u32>,
    pub parts: Map<u32, PartSpec>,
}

impl View for RegistryBuilder {
    type V = BuilderSpec;

    closed spec fn view(&self) -> BuilderSpec {
        BuilderSpec {
            path: self.path@,
            skeleton: self.skeleton@,
            parts: parts_of(self.parts@),
        }
    }
}

impl AssetDir {
    /// Takes the contents of the skeleton file, or the error that came of
    /// reading it, and starts a registry without parts.
    pub fn read_skeleton(self, skeleton_path: &str, contents: Result<String, String>) -> (r: Result<
        RegistryBuilder,
        String,
    >)
        ensures
            match contents {
                Err(source) => r matches Err(message) && message@ == skeleton_message(
                    SkeletonFault::Io { path: skeleton_path@, source: source@ },
                ),
                Ok(raw) => match parsed_skeleton(raw@) {
                    Err(source) => r matches Err(message) && message@ == skeleton_message(
                        SkeletonFault::Parse { path: skeleton_path@, source },
                    ),
                    Ok(map) => r matches Ok(builder) && builder@ == (BuilderSpec {
                        path: self@,
                        skeleton: map,
                        parts: Map::empty(),
                    }),
                },
            },
    {
        match load_master_skeleton(skeleton_path, contents) {
            Ok(skeleton) => {
                let builder = RegistryBuilder { path: self.path, skeleton, parts: HashMap::new() };
                assert(builder@.parts =~= Map::empty());
                Ok(builder)
            },
            Err(e) => Err(e.message()),
        }
    }
}

/// What to do with an entry of the asset folder.
#[derive(Clone, Copy, Debug, PartialEq, Eq)]
pub enum EntryVerdict {
    /// It is not a part file.
    NotAPart,
    /// It is a part file, but its name does not start with a part id.
    NoPartId,
    /// It is to be loaded, and to become the part with this id.
    Load { kind: PartFileKind, part_id: u32 },
}

/// What became of a part that was loaded.
#[derive(Debug)]
pub enum PartOutcome {
    /// It is in the registry.
    Added,
    /// It is in the registry, in place of an earlier part with its id.
    Replaced,
    /// It does not fit the skeleton, and the registry stays as it was.
    Skipped(SkeletonError),
}

/// What to do with an entry of the asset folder.
pub open spec fn entry_verdict(file_name: Option<Seq<u8>>, is_file: bool) -> EntryVerdict {
    match file_name {
        None => EntryVerdict::NotAPart,
        Some(name) => if !is_file || kind_of_name(name) is None {
            EntryVerdict::NotAPart
        } else {
            match id_of_stem(file_stem(name)) {
                None => EntryVerdict::NoPartId,
                Some(part_id) => EntryVerdict::Load { kind: kind_of_name(name)->0, part_id },
            }
        },
    }
}

/// Judges an entry of the asset folder by its name.
pub fn judge_entry(file_name: Option<&[u8]>, is_file: bool) -> (verdict: EntryVerdict)
    ensures
        verdict == entry_verdict(
            match file_name {
                Some(name) => Some(name@),
                None => None,
            },
            is_file,
        ),
{
    let kind = match classify_part_file(file_name, is_file) {
        Some(kind) => kind,
        None => {
            return EntryVerdict::NotAPart;
        },
    };
    match parse_part_id(file_name) {
        Some(part_id) => EntryVerdict::Load { kind, part_id },
        None => EntryVerdict::NoPartId,
    }
}

/// A loaded part, aligned with a skeleton.
pub open spec fn aligned_part(mesh: MeshSpec, skeleton: Map<Seq<char>, u32>) -> PartSpec {
    PartSpec {
        vertices: aligned(mesh.vertices, mesh.local_bone_names, skeleton),
        indices: mesh.indices,
    }
}

/// A builder with one more part.
pub open spec fn with_part(b: BuilderSpec, part_id: u32, part: PartSpec) -> BuilderSpec {
    BuilderSpec { parts: b.parts.insert(part_id, part), ..b }
}

impl RegistryBuilder {
    /// The message for a folder that could not be listed.
    pub fn listing_failed(&self, error: &str) -> (message: String)
        ensures
            message@ == "failed to read asset_dir '"@ + self@.path + "': "@ + error@,
    {
        let mut message = "failed to read asset_dir '".to_string();
        message.append(self.path.as_str());
        message.append("': ");
        message.append(error);
        message
    }

    /// Aligns a loaded part with the skeleton and adds it, in place of any
    /// earlier part with its id. A part that does not fit is left out.
    pub fn add_part(&mut self, part_id: u32, loaded: LoadedMesh) -> (outcome: PartOutcome)
        ensures
            ({
                let names = loaded@.local_bone_names;
                let skeleton = old(self)@.skeleton;
                if can_align(loaded@.vertices, names, skeleton) {
                    &&& final(self)@ == with_part(
                        old(self)@,
                        part_id,
                        aligned_part(loaded@, skeleton),
                    )
                    &&& outcome is Replaced == old(self)@.parts.contains_key(part_id)
                    &&& outcome is Added == !old(self)@.parts.contains_key(part_id)
                } else {
                    &&& final(self)@ == old(self)@
                    &&& outcome is Skipped
                    &&& exists|after: Seq<SkinnedVertex>| #[trigger]
                        alignment_failed(
                            loaded@.vertices,
                            after,
                            names,
                            skeleton,
                            outcome->Skipped_0@,
                        )
                }
            }),
            !(outcome is Skipped) ==> {
                &&& final(self)@.parts.contains_key(part_id)
                &&& final(self)@.parts[part_id].indices == loaded.indices@
                &&& final(self)@.parts[part_id].vertices.len() == loaded.vertices@.len()
                &&& forall|v: int|
                    0 <= v < loaded.vertices@.len() ==> (
                    #[trigger] final(self)@.parts[part_id].vertices[v]).position
                        == loaded.vertices@[v].position
            },
            forall|other: u32|
                other != part_id ==> #[trigger] final(self)@.parts.contains_key(other) == old(
                    self,
                )@.parts.contains_key(other) && final(self)@.parts[other] == old(
                    self,
                )@.parts[other],
    {
        let mut vertices = loaded.vertices;
        let indices = loaded.indices;
        match resolve_bone_indices(
            vertices.as_mut_slice(),
            loaded.local_bone_names.as_slice(),
            &self.skeleton,
        ) {
            Err(e) => PartOutcome::Skipped(e),
            Ok(()) => {
                let earlier = self.parts.insert(part_id, PartData { vertices, indices });
                assert(self@.parts =~= old(self)@.parts.insert(
                    part_id,
                    aligned_part(loaded@, old(self)@.skeleton),
                ));
                if earlier.is_some() {
                    PartOutcome::Replaced
                } else {
                    PartOutcome::Added
                }
            },
        }
    }

    /// Puts the registry in its place, unless there are no parts or the place
    /// is taken. A registry never changes its parts once it is in place.
    pub fn install<T, A>(self, place: &mut Option<Registry<T, A>>) -> (r: Result<usize, String>)
        ensures
            if self@.parts.dom().len() == 0 {
                &&& r is Err
                &&& r->Err_0@ == "no valid .gltf/.glb/.obj parts were loaded from '"@ + self@.path
                    + "'"@
                &&& *final(place) == *old(place)
            } else if *old(place) is Some {
                &&& r is Err
                &&& r->Err_0@
                    == "init_part_registry was already called; registry is immutable after the first successful init"@
                &&& *final(place) == *old(place)
            } else {
                &&& r is Ok
                &&& r->Ok_0 == self@.parts.dom().len()
                &&& *final(place) is Some
                &&& final(place)->0@ == fresh_registry::<T, A>(self@.parts)
                &&& final(place)->0@.parts == self@.parts
                &&& final(place)->0@.skin_trees == Map::<(u32, u32), T>::empty()
                &&& final(place)->0@.anchors == Map::<(u32, u32, u32), A>::empty()
            },
    {
        assert(self@.parts.dom() =~= self.parts@.dom());
        let part_count: usize = self.parts.len();
        if part_count == 0 {
            let mut message = "no valid .gltf/.glb/.obj parts were loaded from '".to_string();
            message.append(self.path.as_str());
            message.append("'");
            return Err(message);
        }
        if place.is_some() {
            return Err(
                "init_part_registry was already called; registry is immutable after the first successful init".to_string(),
            );
        }
        *place = Some(Registry::new(self.parts));
        Ok(part_count)
    }
}

/// Of two parts with one id the later one holds, and it touches no other part.
pub proof fn law_the_later_part_holds(
    b: BuilderSpec,
    part_id: u32,
    earlier: PartSpec,
    later: PartSpec,
    other: u32,
)
    requires
        other != part_id,
    ensures
        with_part(with_part(b, part_id, earlier), part_id, later) == with_part(b, part_id, later),
        with_part(b, part_id, later).parts.contains_key(other) == b.parts.contains_key(other),
        with_part(b, part_id, later).parts[other] == b.parts[other],
{
    assert(b.parts.insert(part_id, earlier).insert(part_id, later) =~= b.parts.insert(
        part_id,
        later,
    ));
}

/// Ends an initialization: says whether it succeeded, and keeps the message if
/// it did not. A message of an earlier call is gone either way.
pub fn init_part_registry(
    last_error: &mut Option<String>,
    outcome: Result<usize, String>,
) -> (initialized: bool)
    ensures
        initialized == outcome is Ok,
        match outcome {
            Ok(_) => *final(last_error) is None,
            Err(message) => *final(last_error) is Some && final(last_error)->0@
                == "init_part_registry failed: "@ + message@,
        },
{
    match outcome {
        Ok(_) => {
            *last_error = None;
            true
        },
        Err(message) => {
            let mut text = "init_part_registry failed: ".to_string();
            text.append(message.as_str());
            *last_error = Some(text);
            false
        },
    }
}

} // verus!
