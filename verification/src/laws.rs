//! What the operations of this crate are for, said of their inputs and results
//! alone.
//!
//! The contracts speak of each operation through a mathematical function of its
//! own. The laws in these modules hold those functions to account: each says,
//! over all inputs, what a result has to satisfy, in terms of the parts,
//! vertices, ids, bytes and texts that go in and come out.

pub mod alignment;
pub mod caches;
pub mod characters;
pub mod folders;
pub mod loading;
pub mod meshes;
pub mod names;
pub mod texts;
pub mod uris;
