# anthroforge

The core of a runtime engine that generates characters from modular parts,
written and proved in Verus.

Parts are glTF (or OBJ) meshes in an asset folder, each skinned to joints of its
own. They are loaded, aligned with one master skeleton by bone name, and kept in
a registry. From the registry a character is put together: head and torso are
merged, the skin is shaped by the character's DNA, each equipped clothing item
is fitted to it, and all is merged into one mesh.

## Layout

- `src/` is the library. It does no input or output, spawns no threads and does
  not panic. Where work has to be done outside, a function says what is needed
  and another takes what came of it.
  - `gltf_loader` loads a part; `gltf_document` is what is read of a document
    through the `gltf` crate, `uri` where the data of buffers comes from,
    `primitive` what makes a mesh primitive usable, `mesh_assembly` how
    primitives become a mesh, `gltf_error` what can be wrong.
  - `skeleton_resolver` aligns a part with the master skeleton.
  - `part_file` and `init` fill the registry from a folder.
  - `registry` holds the parts and the two caches for fitting clothing, and
    `prewarm` fills the caches ahead of time.
  - `character` is the generation of a character, stage by stage.
  - `vertex` and `text` are shared by all.
- `tests/` run the library, with the real `gltf`, `base64` and `serde_json`
  crates.
- `app/` is the C interface around the library: exported functions, files,
  threads and the process-wide registry. Geometry (merging, shaping, fitting and
  the loading of `.obj` files) is installed there as a set of services.

Numbers that are floats elsewhere are carried as bit patterns in `src/`.
