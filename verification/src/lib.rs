//! Verified core of a runtime engine that generates characters from modular
//! parts.
//!
//! Parts are loaded from an asset folder ([`init`], [`part_file`],
//! [`gltf_loader`]), aligned with one master skeleton ([`skeleton_resolver`])
//! and kept in a registry ([`registry`]). From the registry, characters are
//! put together ([`character`]), and what fitting clothing needs can be built
//! ahead of time ([`prewarm`]).
//!
//! The crate does no input or output and spawns no threads. Where work has to
//! be done outside, a function says what is needed, and another takes what
//! came of it. Numbers that are floats elsewhere are carried as bit patterns
//! ([`vertex`]).

pub mod character;
pub mod gltf_document;
pub mod gltf_error;
pub mod gltf_loader;
pub mod init;
pub mod laws;
pub mod mesh_assembly;
pub mod part_file;
pub mod prewarm;
pub mod primitive;
pub mod registry;
pub mod skeleton_resolver;
pub mod text;
pub mod uri;
pub mod vertex;

pub use character::{generate_character, CharacterDNA, MeshOutputBuffer};
pub use gltf_error::GltfLoadError;
pub use gltf_loader::load_gltf_file;
pub use init::init_part_registry;
pub use mesh_assembly::LoadedMesh;
pub use prewarm::anthroforge_prewarm_clothing;
pub use registry::ClothingAnchorError;
pub use skeleton_resolver::{
    load_master_skeleton, resolve_bone_indices, MasterSkeleton, SkeletonError,
};
pub use vertex::SkinnedVertex;
