//! Alignment of modular parts with the one master skeleton.
//!
//! Each part numbers the bones of its own skin. The master skeleton maps bone
//! names to global bone indices, and [`resolve_bone_indices`] rewrites a
//! part's local numbers into global ones with the bone *name* as join key. A
//! part that uses a bone the master skeleton does not know is rejected.

use vstd::hash_map::StringHashMap;
use vstd::prelude::*;

use crate::text::{decimal, push_decimal};
use crate::vertex::{is_zero_float_spec, is_zero_float, SkinnedVertex};

verus! {

/// Bone name to global bone index.
pub struct MasterSkeleton {
    bones: StringHashMap<u32>,
}

impl View for MasterSkeleton {
    type V = Map<Seq<char>, u32>;

    closed spec fn view(&self) -> Map<Seq<char>, u32> {
        self.bones@
    }
}

impl MasterSkeleton {
    /// A skeleton without bones.
    pub fn new() -> (s: Self)
        ensures
            s@ == Map::<Seq<char>, u32>::empty(),
    {
        MasterSkeleton { bones: StringHashMap::new() }
    }

    /// Gives the bone `name` the global index `index`, in place of any it had.
    pub fn insert(&mut self, name: String, index: u32)
        ensures
            final(self)@ == old(self)@.insert(name@, index),
    {
        self.bones.insert(name, index);
    }

    /// The global index of the bone `name`.
    pub fn get(&self, name: &str) -> (index: Option<u32>)
        ensures
            index == (if self@.contains_key(name@) { Some(self@[name@]) } else { None }),
    {
        match self.bones.get(name) {
            Some(index) => Some(*index),
            None => None,
        }
    }
}

/// Why a skeleton could not be loaded or a part could not be aligned with it.
#[derive(Debug)]
pub enum SkeletonError {
    /// The skeleton file could not be read.
    Io { path: String, source: String },
    /// The skeleton file is not a flat JSON object from bone names to indices.
    Parse { path: String, source: String },
    /// A part uses a bone name that the master skeleton lacks.
    UnknownBone { bone_name: String, local_joint_index: usize },
    /// A vertex refers past the end of its part's joint list.
    LocalJointIndexOutOfRange {
        vertex_index: usize,
        local_index: u16,
        local_joint_count: usize,
    },
}

/// What a [`SkeletonError`] says, over mathematical text.
pub enum SkeletonFault {
    Io { path: Seq<char>, source: Seq<char> },
    Parse { path: Seq<char>, source: Seq<char> },
    UnknownBone { bone_name: Seq<char>, local_joint_index: usize },
    LocalJointIndexOutOfRange {
        vertex_index: usize,
        local_index: u16,
        local_joint_count: usize,
    },
}

impl View for SkeletonError {
    type V = SkeletonFault;

    open spec fn view(&self) -> SkeletonFault {
        match *self {
            SkeletonError::Io { path, source } => SkeletonFault::Io {
                path: path@,
                source: source@,
            },
            SkeletonError::Parse { path, source } => SkeletonFault::Parse {
                path: path@,
                source: source@,
            },
            SkeletonError::UnknownBone { bone_name, local_joint_index } =>
                SkeletonFault::UnknownBone { bone_name: bone_name@, local_joint_index },
            SkeletonError::LocalJointIndexOutOfRange {
                vertex_index,
                local_index,
                local_joint_count,
            } => SkeletonFault::LocalJointIndexOutOfRange {
                vertex_index,
                local_index,
                local_joint_count,
            },
        }
    }
}

/// The names of a list of strings.
pub open spec fn names_of(names: Seq<String>) -> Seq<Seq<char>> {
    Seq::new(names.len(), |i: int| names[i]@)
}

/// Whether `i` is the first joint whose name the master skeleton lacks.
pub open spec fn first_unknown_bone(
    names: Seq<Seq<char>>,
    master: Map<Seq<char>, u32>,
    i: int,
) -> bool {
    &&& 0 <= i < names.len()
    &&& !master.contains_key(names[i])
    &&& forall|j: int| 0 <= j < i ==> master.contains_key(#[trigger] names[j])
}

/// Whether the master skeleton knows every joint of a part.
pub open spec fn all_bones_known(names: Seq<Seq<char>>, master: Map<Seq<char>, u32>) -> bool {
    forall|j: int| 0 <= j < names.len() ==> master.contains_key(#[trigger] names[j])
}

/// A global bone index as a vertex holds it: saturated to 16 bits.
pub open spec fn saturated(index: u32) -> u16 {
    if index > 0xffff {
        0xffff
    } else {
        index as u16
    }
}

/// Whether slot `s` of a vertex carries influence but names no joint.
pub open spec fn slot_out_of_range(v: SkinnedVertex, s: int, joints: nat) -> bool {
    !is_zero_float_spec(v.bone_weights[s]) && v.bone_indices[s] >= joints
}

/// Slot `s` after remapping. A slot without influence keeps what it holds.
pub open spec fn remapped_slot(
    v: SkinnedVertex,
    s: int,
    names: Seq<Seq<char>>,
    master: Map<Seq<char>, u32>,
) -> u16 {
    if is_zero_float_spec(v.bone_weights[s]) {
        v.bone_indices[s]
    } else {
        saturated(master[names[v.bone_indices[s] as int]])
    }
}

/// Whether `after` is `before` with its first `upto` slots remapped and all
/// else as it was.
pub open spec fn remapped_upto(
    before: SkinnedVertex,
    after: SkinnedVertex,
    upto: int,
    names: Seq<Seq<char>>,
    master: Map<Seq<char>, u32>,
) -> bool {
    &&& after.position == before.position
    &&& after.normal == before.normal
    &&& after.uv == before.uv
    &&& after.bone_weights == before.bone_weights
    &&& forall|s: int|
        0 <= s < 4 ==> #[trigger] after.bone_indices[s] == (if s < upto {
            remapped_slot(before, s, names, master)
        } else {
            before.bone_indices[s]
        })
}

/// Whether the slots before slot `slot` of vertex `vertex`, in reading order,
/// are all in range.
pub open spec fn in_range_before(
    vertices: Seq<SkinnedVertex>,
    vertex: int,
    slot: int,
    joints: nat,
) -> bool {
    forall|v: int, s: int|
        0 <= v < vertices.len() && 0 <= s < 4 && (v < vertex || (v == vertex && s < slot))
            ==> !#[trigger] slot_out_of_range(vertices[v], s, joints)
}

/// Whether `after` is `before` with every slot remapped that comes before slot
/// `slot` of vertex `vertex` in reading order, and all else as it was.
pub open spec fn remapped_before(
    before: Seq<SkinnedVertex>,
    after: Seq<SkinnedVertex>,
    vertex: int,
    slot: int,
    names: Seq<Seq<char>>,
    master: Map<Seq<char>, u32>,
) -> bool {
    &&& after.len() == before.len()
    &&& forall|v: int|
        0 <= v < vertex && v < before.len() ==> remapped_upto(
            before[v],
            #[trigger] after[v],
            4,
            names,
            master,
        )
    &&& vertex < before.len() ==> remapped_upto(before[vertex], after[vertex], slot, names, master)
    &&& forall|v: int| vertex < v < before.len() ==> #[trigger] after[v] == before[v]
}

/// Whether remapping stopped at a slot of vertex `vertex` that holds the
/// out-of-range joint number `local_index`: the first such slot in reading
/// order, with all slots before it remapped and nothing else touched.
pub open spec fn stopped_at(
    before: Seq<SkinnedVertex>,
    after: Seq<SkinnedVertex>,
    vertex: int,
    local_index: u16,
    names: Seq<Seq<char>>,
    master: Map<Seq<char>, u32>,
) -> bool {
    &&& 0 <= vertex < before.len()
    &&& exists|slot: int|
        {
            &&& 0 <= slot < 4
            &&& #[trigger] slot_out_of_range(before[vertex], slot, names.len())
            &&& local_index == before[vertex].bone_indices[slot]
            &&& in_range_before(before, vertex, slot, names.len())
            &&& remapped_before(before, after, vertex, slot, names, master)
        }
}

/// Whether a part can be aligned: the master skeleton knows all its bones, and
/// every slot with influence names one of them.
pub open spec fn can_align(
    vertices: Seq<SkinnedVertex>,
    names: Seq<Seq<char>>,
    master: Map<Seq<char>, u32>,
) -> bool {
    &&& all_bones_known(names, master)
    &&& in_range_before(vertices, vertices.len() as int, 0, names.len())
}

/// A vertex with all its slots remapped.
pub open spec fn aligned_vertex(
    v: SkinnedVertex,
    names: Seq<Seq<char>>,
    master: Map<Seq<char>, u32>,
) -> SkinnedVertex {
    SkinnedVertex {
        bone_indices: [
            remapped_slot(v, 0, names, master),
            remapped_slot(v, 1, names, master),
            remapped_slot(v, 2, names, master),
            remapped_slot(v, 3, names, master),
        ],
        ..v
    }
}

/// Vertices with all their slots remapped.
pub open spec fn aligned(
    vertices: Seq<SkinnedVertex>,
    names: Seq<Seq<char>>,
    master: Map<Seq<char>, u32>,
) -> Seq<SkinnedVertex> {
    Seq::new(vertices.len(), |v: int| aligned_vertex(vertices[v], names, master))
}

/// Whether `fault` is why a part cannot be aligned, and `after` what an attempt
/// leaves behind. An unknown bone is found before any vertex is touched.
pub open spec fn alignment_failed(
    before: Seq<SkinnedVertex>,
    after: Seq<SkinnedVertex>,
    names: Seq<Seq<char>>,
    master: Map<Seq<char>, u32>,
    fault: SkeletonFault,
) -> bool {
    match fault {
        SkeletonFault::UnknownBone { bone_name, local_joint_index } => {
            &&& first_unknown_bone(names, master, local_joint_index as int)
            &&& bone_name == names[local_joint_index as int]
            &&& after == before
        },
        SkeletonFault::LocalJointIndexOutOfRange {
            vertex_index,
            local_index,
            local_joint_count,
        } => {
            &&& all_bones_known(names, master)
            &&& local_joint_count == names.len()
            &&& stopped_at(before, after, vertex_index as int, local_index, names, master)
        },
        _ => false,
    }
}

/// Vertices whose slots are all remapped are the aligned vertices.
proof fn lemma_remapped_is_aligned(
    before: Seq<SkinnedVertex>,
    after: Seq<SkinnedVertex>,
    names: Seq<Seq<char>>,
    master: Map<Seq<char>, u32>,
)
    requires
        remapped_before(before, after, before.len() as int, 0, names, master),
    ensures
        after == aligned(before, names, master),
{
    assert forall|v: int| 0 <= v < before.len() implies after[v] == aligned_vertex(
        before[v],
        names,
        master,
    ) by {
        assert(remapped_upto(before[v], after[v], 4, names, master));
        let want = aligned_vertex(before[v], names, master);
        assert(after[v].bone_indices[0] == want.bone_indices[0]);
        assert(after[v].bone_indices[1] == want.bone_indices[1]);
        assert(after[v].bone_indices[2] == want.bone_indices[2]);
        assert(after[v].bone_indices[3] == want.bone_indices[3]);
        assert(after[v].bone_indices =~= want.bone_indices);
    }
}

/// Rewrites the local joint numbers in `vertices` into global bone indices.
///
/// `local_bone_names[i]` is the name of local joint `i`. Every listed name has
/// to be known, used or not. A slot of weight zero is left alone, since some
/// exporters leave stale numbers there. A global index beyond 16 bits
/// saturates. Where a slot with influence names no joint, the slots before it
/// in reading order have been rewritten and the rest has not.
pub fn resolve_bone_indices(
    vertices: &mut [SkinnedVertex],
    local_bone_names: &[String],
    master: &MasterSkeleton,
) -> (r: Result<(), SkeletonError>)
    ensures
        r is Ok == can_align(old(vertices)@, names_of(local_bone_names@), master@),
        match r {
            Ok(()) => final(vertices)@ == aligned(
                old(vertices)@,
                names_of(local_bone_names@),
                master@,
            ),
            Err(e) => alignment_failed(
                old(vertices)@,
                final(vertices)@,
                names_of(local_bone_names@),
                master@,
                e@,
            ),
        },
        r is Ok <==> (forall|j: int|
            0 <= j < local_bone_names@.len() ==> master@.contains_key(
                (#[trigger] local_bone_names@[j])@,
            )) && (forall|v: int, s: int|
            0 <= v < old(vertices)@.len() && 0 <= s < 4 && (#[trigger] old(vertices)@[v].bone_weights[s]) != 0x0000_0000 && old(vertices)@[v].bone_weights[s]
                != 0x8000_0000 ==> old(vertices)@[v].bone_indices[s] < local_bone_names@.len()),
        final(vertices)@.len() == old(vertices)@.len(),
        forall|v: int|
            0 <= v < old(vertices)@.len() ==> (#[trigger] final(vertices)@[v]).position == old(vertices)@[v].position && final(vertices)@[v].normal == old(vertices)@[v].normal && final(vertices)@[v].uv == old(vertices)@[v].uv && final(vertices)@[v].bone_weights == old(vertices)@[v].bone_weights,
        r is Ok ==> forall|v: int, s: int|
            0 <= v < old(vertices)@.len() && 0 <= s < 4 ==> (#[trigger] final(vertices)@[v].bone_indices[s]) as int == (if old(vertices)@[v].bone_weights[s] == 0x0000_0000
                || old(vertices)@[v].bone_weights[s] == 0x8000_0000 {
                old(vertices)@[v].bone_indices[s] as int
            } else if master@[local_bone_names@[old(vertices)@[v].bone_indices[s] as int]@]
                <= 65535 {
                master@[local_bone_names@[old(vertices)@[v].bone_indices[s] as int]@] as int
            } else {
                65535
            }),
{
    let ghost names = names_of(local_bone_names@);
    let ghost before = vertices@;
    let joint_count: usize = local_bone_names.len();
    let mut local_to_global: Vec<u32> = Vec::with_capacity(joint_count);
    let mut joint: usize = 0;
    while joint < joint_count
        invariant
            joint <= joint_count,
            joint_count == local_bone_names@.len(),
            names == names_of(local_bone_names@),
            vertices@ == before,
            before == old(vertices)@,
            local_to_global@.len() == joint,
            forall|j: int|
                0 <= j < joint ==> master@.contains_key(#[trigger] names[j])
                    && local_to_global@[j] == master@[names[j]],
        decreases joint_count - joint,
    {
        match master.get(local_bone_names[joint].as_str()) {
            Some(global_index) => {
                local_to_global.push(global_index);
            },
            None => {
                assert(!master@.contains_key(names[joint as int]));
                return Err(
                    SkeletonError::UnknownBone {
                        bone_name: local_bone_names[joint].clone(),
                        local_joint_index: joint,
                    },
                );
            },
        }
        joint += 1;
    }

    let vertex_count: usize = vertices.len();
    let mut vertex_index: usize = 0;
    while vertex_index < vertex_count
        invariant
            vertex_index <= vertex_count,
            vertex_count == before.len(),
            before == old(vertices)@,
            joint_count == names.len(),
            names == names_of(local_bone_names@),
            all_bones_known(names, master@),
            local_to_global@.len() == joint_count,
            forall|j: int|
                0 <= j < joint_count ==> local_to_global@[j] == master@[#[trigger] names[j]],
            in_range_before(before, vertex_index as int, 0, names.len()),
            remapped_before(before, vertices@, vertex_index as int, 0, names, master@),
        decreases vertex_count - vertex_index,
    {
        let mut vertex = vertices[vertex_index];
        let mut slot: usize = 0;
        while slot < 4
            invariant
                slot <= 4,
                vertex_index < vertex_count,
                vertex_count == before.len(),
                before == old(vertices)@,
                joint_count == names.len(),
                names == names_of(local_bone_names@),
                all_bones_known(names, master@),
                local_to_global@.len() == joint_count,
                forall|j: int|
                    0 <= j < joint_count ==> local_to_global@[j] == master@[#[trigger] names[j]],
                in_range_before(before, vertex_index as int, slot as int, names.len()),
                remapped_before(before, vertices@, vertex_index as int, 0, names, master@),
                remapped_upto(before[vertex_index as int], vertex, slot as int, names, master@),
            decreases 4 - slot,
        {
            let local_index: u16 = vertex.bone_indices[slot];
            if !is_zero_float(vertex.bone_weights[slot]) {
                if local_index as usize >= joint_count {
                    vertices[vertex_index] = vertex;
                    assert(slot_out_of_range(
                        before[vertex_index as int],
                        slot as int,
                        names.len(),
                    ));
                    assert(remapped_before(
                        before,
                        vertices@,
                        vertex_index as int,
                        slot as int,
                        names,
                        master@,
                    ));
                    assert(stopped_at(
                        before,
                        vertices@,
                        vertex_index as int,
                        local_index,
                        names,
                        master@,
                    ));
                    return Err(
                        SkeletonError::LocalJointIndexOutOfRange {
                            vertex_index,
                            local_index,
                            local_joint_count: joint_count,
                        },
                    );
                }
                let global_index: u32 = local_to_global[local_index as usize];
                let stored: u16 = if global_index > 0xffff {
                    0xffff
                } else {
                    global_index as u16
                };
                vertex.bone_indices[slot] = stored;
            }
            assert(!slot_out_of_range(before[vertex_index as int], slot as int, names.len()));
            slot += 1;
        }
        vertices[vertex_index] = vertex;
        vertex_index += 1;
    }
    proof {
        lemma_remapped_is_aligned(before, vertices@, names, master@);
        assert forall|j: int| 0 <= j < local_bone_names@.len() implies master@.contains_key(
            (#[trigger] local_bone_names@[j])@,
        ) by {
            assert(master@.contains_key(names[j]));
        }
        assert forall|v: int, s: int| 0 <= v < before.len() && 0 <= s < 4 implies #[trigger]
            vertices@[v].bone_indices[s] == remapped_slot(before[v], s, names, master@) by {
            lemma_aligned_slot(before, names, master@, v, s);
        }
        assert forall|v: int, s: int|
            0 <= v < before.len() && 0 <= s < 4 && (#[trigger] before[v].bone_weights[s])
                != 0x0000_0000 && before[v].bone_weights[s] != 0x8000_0000 implies
            before[v].bone_indices[s] < names.len() by {
            assert(!slot_out_of_range(before[v], s, names.len()));
        }
    }
    Ok(())
}

/// The message of an error.
pub open spec fn skeleton_message(fault: SkeletonFault) -> Seq<char> {
    match fault {
        SkeletonFault::Io { path, source } => "failed to read '"@ + path + "': "@ + source,
        SkeletonFault::Parse { path, source } => "failed to parse '"@ + path + "' as JSON: "@
            + source,
        SkeletonFault::UnknownBone { bone_name, local_joint_index } => "bone '"@ + bone_name
            + "' (local joint index "@ + decimal(local_joint_index as nat)
            + ") does not exist in master_skeleton.json; part is incompatible with the master rig"@,
        SkeletonFault::LocalJointIndexOutOfRange {
            vertex_index,
            local_index,
            local_joint_count,
        } => "vertex["@ + decimal(vertex_index as nat) + "] references local joint index "@
            + decimal(local_index as nat) + ", but the part only defines "@ + decimal(
            local_joint_count as nat,
        ) + " joints"@,
    }
}

impl SkeletonError {
    /// The error that this one came of.
    pub fn source(&self) -> (source: Option<&str>)
        ensures
            match self@ {
                SkeletonFault::Io { source: text, .. } => source is Some && source->0@ == text,
                SkeletonFault::Parse { source: text, .. } => source is Some && source->0@ == text,
                _ => source is None,
            },
    {
        match self {
            SkeletonError::Io { source, .. } => Some(source.as_str()),
            SkeletonError::Parse { source, .. } => Some(source.as_str()),
            _ => None,
        }
    }

    /// The message to show to a person.
    pub fn message(&self) -> (text: String)
        ensures
            text@ == skeleton_message(self@),
    {
        let mut out = String::new();
        match self {
            SkeletonError::Io { path, source } => {
                out.append("failed to read '");
                out.append(path.as_str());
                out.append("': ");
                out.append(source.as_str());
            },
            SkeletonError::Parse { path, source } => {
                out.append("failed to parse '");
                out.append(path.as_str());
                out.append("' as JSON: ");
                out.append(source.as_str());
            },
            SkeletonError::UnknownBone { bone_name, local_joint_index } => {
                out.append("bone '");
                out.append(bone_name.as_str());
                out.append("' (local joint index ");
                push_decimal(&mut out, *local_joint_index as u64);
                out.append(
                    ") does not exist in master_skeleton.json; part is incompatible with the master rig",
                );
            },
            SkeletonError::LocalJointIndexOutOfRange {
                vertex_index,
                local_index,
                local_joint_count,
            } => {
                out.append("vertex[");
                push_decimal(&mut out, *vertex_index as u64);
                out.append("] references local joint index ");
                push_decimal(&mut out, *local_index as u64);
                out.append(", but the part only defines ");
                push_decimal(&mut out, *local_joint_count as u64);
                out.append(" joints");
            },
        }
        out
    }
}

/// The outcome of `serde_json::from_str` on this text, for a map from names to
/// 32-bit numbers: the map, or the text of the error.
pub uninterp spec fn parsed_skeleton(raw: Seq<char>) -> Result<Map<Seq<char>, u32>, Seq<char>>;

/// Whether a list holds the entries of a map, each at least once.
pub open spec fn lists_entries(entries: Seq<(String, u32)>, map: Map<Seq<char>, u32>) -> bool {
    &&& forall|i: int|
        0 <= i < entries.len() ==> map.contains_key((#[trigger] entries[i]).0@)
            && map[entries[i].0@] == entries[i].1
    &&& forall|name: Seq<char>| #[trigger]
        map.contains_key(name) ==> exists|i: int|
            0 <= i < entries.len() && (#[trigger] entries[i]).0@ == name
}

/// Calls `serde_json::from_str` for a map from names to 32-bit numbers and
/// lists the entries of the map. Claims that the map, or the text of the
/// error, is a function of the text. The order of the list is left open.
#[verifier::external_body]
fn parse_entries(raw: &str) -> (r: Result<Vec<(String, u32)>, String>)
    ensures
        match r {
            Ok(entries) => parsed_skeleton(raw@) matches Ok(map) && lists_entries(entries@, map),
            Err(e) => parsed_skeleton(raw@) == Err::<Map<Seq<char>, u32>, Seq<char>>(e@),
        },
{
    match serde_json::from_str::<std::collections::HashMap<String, u32>>(raw) {
        Ok(map) => Ok(map.into_iter().collect()),
        Err(e) => Err(e.to_string()),
    }
}

/// The map that a list of entries makes up. Of two entries with one name the
/// later holds.
pub open spec fn entries_map(entries: Seq<(String, u32)>) -> Map<Seq<char>, u32>
    decreases entries.len(),
{
    if entries.len() == 0 {
        Map::empty()
    } else {
        entries_map(entries.drop_last()).insert(entries.last().0@, entries.last().1)
    }
}

/// What a list of entries makes up holds those entries and nothing else.
proof fn lemma_entries_map(entries: Seq<(String, u32)>)
    ensures
        forall|i: int|
            0 <= i < entries.len() ==> entries_map(entries).contains_key(
                (#[trigger] entries[i]).0@,
            ),
        forall|name: Seq<char>| #[trigger]
            entries_map(entries).contains_key(name) ==> exists|i: int|
                0 <= i < entries.len() && (#[trigger] entries[i]).0@ == name && entries[i].1
                    == entries_map(entries)[name],
    decreases entries.len(),
{
    if entries.len() > 0 {
        let front = entries.drop_last();
        lemma_entries_map(front);
        let map = entries_map(entries);
        assert forall|i: int| 0 <= i < entries.len() implies map.contains_key(
            (#[trigger] entries[i]).0@,
        ) by {
            if i < front.len() {
                assert(front[i] == entries[i]);
            }
        }
        assert forall|name: Seq<char>| #[trigger] map.contains_key(name) implies exists|i: int|
            0 <= i < entries.len() && (#[trigger] entries[i]).0@ == name && entries[i].1
                == map[name] by {
            if name == entries.last().0@ {
                assert(entries[entries.len() - 1].0@ == name);
            } else {
                let i = choose|i: int|
                    0 <= i < front.len() && (#[trigger] front[i]).0@ == name && front[i].1
                        == entries_map(front)[name];
                assert(entries[i] == front[i]);
            }
        }
    }
}

/// The skeleton with these bones.
pub fn skeleton_from_entries(entries: &Vec<(String, u32)>) -> (skeleton: MasterSkeleton)
    ensures
        skeleton@ == entries_map(entries@),
{
    let mut skeleton = MasterSkeleton::new();
    let mut i: usize = 0;
    while i < entries.len()
        invariant
            i <= entries@.len(),
            skeleton@ == entries_map(entries@.take(i as int)),
        decreases entries@.len() - i,
    {
        let entry = &entries[i];
        skeleton.insert(entry.0.clone(), entry.1);
        assert(entries@.take(i + 1).drop_last() == entries@.take(i as int));
        i += 1;
    }
    assert(entries@.take(i as int) == entries@);
    skeleton
}

/// Loads the master skeleton from the contents of its file, a flat JSON object
/// from bone names to indices, or from the error that came of reading it.
pub fn load_master_skeleton(path: &str, contents: Result<String, String>) -> (r: Result<
    MasterSkeleton,
    SkeletonError,
>)
    ensures
        match contents {
            Err(source) => r matches Err(e) && e@ == (SkeletonFault::Io {
                path: path@,
                source: source@,
            }),
            Ok(raw) => match parsed_skeleton(raw@) {
                Err(source) => r matches Err(e) && e@ == (SkeletonFault::Parse {
                    path: path@,
                    source,
                }),
                Ok(map) => r matches Ok(skeleton) && skeleton@ == map,
            },
        },
{
    let raw = match contents {
        Ok(raw) => raw,
        Err(source) => {
            return Err(SkeletonError::Io { path: path.to_string(), source });
        },
    };
    match parse_entries(raw.as_str()) {
        Ok(entries) => {
            proof {
                lemma_entries_map(entries@);
                assert(entries_map(entries@) =~= parsed_skeleton(raw@)->Ok_0);
            }
            Ok(skeleton_from_entries(&entries))
        },
        Err(source) => Err(SkeletonError::Parse { path: path.to_string(), source }),
    }
}

/// The slots of an aligned vertex.
proof fn lemma_aligned_slot(
    vertices: Seq<SkinnedVertex>,
    names: Seq<Seq<char>>,
    master: Map<Seq<char>, u32>,
    v: int,
    s: int,
)
    requires
        0 <= v < vertices.len(),
        0 <= s < 4,
    ensures
        aligned(vertices, names, master)[v].bone_indices[s] == remapped_slot(
            vertices[v],
            s,
            names,
            master,
        ),
{
}

/// A bone is one number in every part: after alignment, two slots with
/// influence that name the same bone, each through the joint list of its own
/// part, are equal.
pub proof fn law_one_bone_one_index(
    master: Map<Seq<char>, u32>,
    vertices: Seq<SkinnedVertex>,
    names: Seq<Seq<char>>,
    v: int,
    s: int,
    other_vertices: Seq<SkinnedVertex>,
    other_names: Seq<Seq<char>>,
    w: int,
    t: int,
)
    requires
        0 <= v < vertices.len(),
        0 <= s < 4,
        0 <= w < other_vertices.len(),
        0 <= t < 4,
        !is_zero_float_spec(vertices[v].bone_weights[s]),
        !is_zero_float_spec(other_vertices[w].bone_weights[t]),
        names[vertices[v].bone_indices[s] as int]
            == other_names[other_vertices[w].bone_indices[t] as int],
    ensures
        aligned(vertices, names, master)[v].bone_indices[s] == aligned(
            other_vertices,
            other_names,
            master,
        )[w].bone_indices[t],
{
    lemma_aligned_slot(vertices, names, master, v, s);
    lemma_aligned_slot(other_vertices, other_names, master, w, t);
}

/// Bones that the master skeleton tells apart, within 16 bits, stay apart.
pub proof fn law_distinct_bones_stay_distinct(
    master: Map<Seq<char>, u32>,
    vertices: Seq<SkinnedVertex>,
    names: Seq<Seq<char>>,
    v: int,
    s: int,
    other_vertices: Seq<SkinnedVertex>,
    other_names: Seq<Seq<char>>,
    w: int,
    t: int,
)
    requires
        0 <= v < vertices.len(),
        0 <= s < 4,
        0 <= w < other_vertices.len(),
        0 <= t < 4,
        !is_zero_float_spec(vertices[v].bone_weights[s]),
        !is_zero_float_spec(other_vertices[w].bone_weights[t]),
        master[names[vertices[v].bone_indices[s] as int]]
            != master[other_names[other_vertices[w].bone_indices[t] as int]],
        master[names[vertices[v].bone_indices[s] as int]] <= 0xffff,
        master[other_names[other_vertices[w].bone_indices[t] as int]] <= 0xffff,
    ensures
        aligned(vertices, names, master)[v].bone_indices[s] != aligned(
            other_vertices,
            other_names,
            master,
        )[w].bone_indices[t],
{
    lemma_aligned_slot(vertices, names, master, v, s);
    lemma_aligned_slot(other_vertices, other_names, master, w, t);
}

/// Alignment changes nothing but joint numbers, and of those only the ones
/// with influence.
pub proof fn law_alignment_touches_only_influence(
    master: Map<Seq<char>, u32>,
    vertices: Seq<SkinnedVertex>,
    names: Seq<Seq<char>>,
    v: int,
    s: int,
)
    requires
        0 <= v < vertices.len(),
        0 <= s < 4,
    ensures
        aligned(vertices, names, master).len() == vertices.len(),
        aligned(vertices, names, master)[v].position == vertices[v].position,
        aligned(vertices, names, master)[v].normal == vertices[v].normal,
        aligned(vertices, names, master)[v].uv == vertices[v].uv,
        aligned(vertices, names, master)[v].bone_weights == vertices[v].bone_weights,
        is_zero_float_spec(vertices[v].bone_weights[s]) ==> aligned(
            vertices,
            names,
            master,
        )[v].bone_indices[s] == vertices[v].bone_indices[s],
{
    lemma_aligned_slot(vertices, names, master, v, s);
}

} // verus!
