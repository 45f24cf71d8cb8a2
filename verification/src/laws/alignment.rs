//! Aligning a part with the master skeleton.

use vstd::prelude::*;

use crate::skeleton_resolver::{
    aligned, aligned_vertex, alignment_failed, can_align, entries_map, names_of,
    remapped_before, remapped_upto, slot_out_of_range, SkeletonFault,
};
use crate::vertex::{is_zero_float_spec, SkinnedVertex};

verus! {

/// A weight counts as zero if all its bits but the sign are clear, and only
/// then: the smallest influence is an influence.
pub proof fn law_a_weight_is_zero_if_only_its_sign_can_be_set(bits: u32)
    ensures
        is_zero_float_spec(bits) <==> bits & 0x7fff_ffff == 0,
        is_zero_float_spec(bits) == is_zero_float_spec(bits ^ 0x8000_0000),
{
    assert(bits & 0x7fff_ffff == 0 <==> bits == 0 || bits == 0x8000_0000) by (bit_vector);
    assert(bits ^ 0x8000_0000 == 0 <==> bits == 0x8000_0000) by (bit_vector);
    assert(bits ^ 0x8000_0000 == 0x8000_0000 <==> bits == 0) by (bit_vector);
}

/// After alignment a slot whose weight has any bit set but the sign holds the
/// master index of the bone that its joint number named, or 65535 where that is
/// too large. Any other slot, and everything else of a vertex, stays as it was.
pub proof fn law_slots_hold_the_master_index_of_their_bone(
    vertices: Seq<SkinnedVertex>,
    names: Seq<Seq<char>>,
    master: Map<Seq<char>, u32>,
    v: int,
    s: int,
)
    requires
        0 <= v < vertices.len(),
        0 <= s < 4,
    ensures
        aligned(vertices, names, master).len() == vertices.len(),
        ({
            let before = vertices[v];
            let after = aligned(vertices, names, master)[v];
            let weight = before.bone_weights[s];
            let index = master[names[before.bone_indices[s] as int]];
            &&& after.position == before.position
            &&& after.normal == before.normal
            &&& after.uv == before.uv
            &&& after.bone_weights == before.bone_weights
            &&& weight == 0x0000_0000 || weight == 0x8000_0000 ==> after.bone_indices[s]
                == before.bone_indices[s]
            &&& weight != 0x0000_0000 && weight != 0x8000_0000 && index <= 65535
                ==> after.bone_indices[s] as int == index as int
            &&& weight != 0x0000_0000 && weight != 0x8000_0000 && index > 65535
                ==> after.bone_indices[s] == 65535
        }),
{
    let after = aligned(vertices, names, master)[v];
    assert(after == aligned_vertex(vertices[v], names, master));
    assert(s == 0 || s == 1 || s == 2 || s == 3);
}

/// A part can be aligned if the master skeleton knows every one of its bones and
/// every slot with a weight names one of them. Nothing else stands in the way.
pub proof fn law_a_part_fits_if_its_bones_are_known(
    vertices: Seq<SkinnedVertex>,
    names: Seq<Seq<char>>,
    master: Map<Seq<char>, u32>,
)
    ensures
        can_align(vertices, names, master) <==> {
            &&& forall|j: int| 0 <= j < names.len() ==> master.contains_key(#[trigger] names[j])
            &&& forall|v: int, s: int|
                0 <= v < vertices.len() && 0 <= s < 4 && (
                #[trigger] vertices[v].bone_weights[s]) != 0x0000_0000
                    && vertices[v].bone_weights[s] != 0x8000_0000 ==> vertices[v].bone_indices[s]
                    < names.len()
        },
{
    if can_align(vertices, names, master) {
        assert forall|v: int, s: int|
            0 <= v < vertices.len() && 0 <= s < 4 && (#[trigger] vertices[v].bone_weights[s])
                != 0x0000_0000 && vertices[v].bone_weights[s] != 0x8000_0000 implies
            vertices[v].bone_indices[s] < names.len() by {
            assert(!slot_out_of_range(vertices[v], s, names.len()));
        }
    } else if forall|j: int| 0 <= j < names.len() ==> master.contains_key(#[trigger] names[j]) {
        let (v, s) = choose|v: int, s: int|
            0 <= v < vertices.len() && 0 <= s < 4 && #[trigger] slot_out_of_range(
                vertices[v],
                s,
                names.len(),
            );
        assert(slot_out_of_range(vertices[v], s, names.len()));
        assert(vertices[v].bone_weights[s] != 0x0000_0000);
    }
}

/// What a refusal says is so: the bone that it names is the first of the part
/// that the master skeleton lacks, and no vertex was touched. Or all bones are
/// known, and the joint number that it gives stands in the first slot, in
/// reading order, that has a weight and names no joint of the part.
pub proof fn law_a_refusal_names_the_first_thing_wrong(
    before: Seq<SkinnedVertex>,
    after: Seq<SkinnedVertex>,
    names: Seq<Seq<char>>,
    master: Map<Seq<char>, u32>,
    fault: SkeletonFault,
)
    requires
        alignment_failed(before, after, names, master, fault),
    ensures
        fault is UnknownBone || fault is LocalJointIndexOutOfRange,
        fault matches SkeletonFault::UnknownBone { bone_name, local_joint_index } ==> {
            &&& local_joint_index < names.len()
            &&& bone_name == names[local_joint_index as int]
            &&& !master.contains_key(bone_name)
            &&& forall|j: int|
                0 <= j < local_joint_index ==> master.contains_key(#[trigger] names[j])
            &&& after == before
        },
        fault matches SkeletonFault::LocalJointIndexOutOfRange {
            vertex_index,
            local_index,
            local_joint_count,
        } ==> {
            &&& forall|j: int| 0 <= j < names.len() ==> master.contains_key(#[trigger] names[j])
            &&& local_joint_count == names.len()
            &&& local_index >= local_joint_count
            &&& vertex_index < before.len()
            &&& exists|slot: int|
                0 <= slot < 4 && (#[trigger] before[vertex_index as int].bone_indices[slot])
                    == local_index && before[vertex_index as int].bone_weights[slot] != 0x0000_0000
                    && before[vertex_index as int].bone_weights[slot] != 0x8000_0000 && forall|
                    v: int,
                    s: int,
                |
                    0 <= v < before.len() && 0 <= s < 4 && (v < vertex_index || (v == vertex_index
                        && s < slot)) && (#[trigger] before[v].bone_weights[s]) != 0x0000_0000
                        && before[v].bone_weights[s] != 0x8000_0000 ==> before[v].bone_indices[s]
                        < names.len()
            &&& after[vertex_index as int].position == before[vertex_index as int].position
            &&& after[vertex_index as int].normal == before[vertex_index as int].normal
            &&& after[vertex_index as int].uv == before[vertex_index as int].uv
            &&& after[vertex_index as int].bone_weights == before[vertex_index as int].bone_weights
            &&& after.len() == before.len()
            &&& forall|v: int| vertex_index < v < before.len() ==> #[trigger] after[v] == before[v]
        },
{
    if let SkeletonFault::LocalJointIndexOutOfRange { vertex_index, local_index, .. } = fault {
        let slot = choose|slot: int|
            {
                &&& 0 <= slot < 4
                &&& #[trigger] slot_out_of_range(before[vertex_index as int], slot, names.len())
                &&& local_index == before[vertex_index as int].bone_indices[slot]
                &&& crate::skeleton_resolver::in_range_before(
                    before,
                    vertex_index as int,
                    slot,
                    names.len(),
                )
                &&& remapped_before(before, after, vertex_index as int, slot, names, master)
            };
        assert(before[vertex_index as int].bone_indices[slot] == local_index);
        assert forall|v: int, s: int|
            0 <= v < before.len() && 0 <= s < 4 && (v < vertex_index || (v == vertex_index && s
                < slot)) && (#[trigger] before[v].bone_weights[s]) != 0x0000_0000
                && before[v].bone_weights[s] != 0x8000_0000 implies before[v].bone_indices[s]
            < names.len() by {
            assert(!slot_out_of_range(before[v], s, names.len()));
        }
    }
}

/// A vertex before the one that a refusal stopped at is fully aligned, as if
/// there had been no refusal.
pub proof fn law_a_refusal_leaves_earlier_vertices_aligned(
    before: Seq<SkinnedVertex>,
    after: Seq<SkinnedVertex>,
    names: Seq<Seq<char>>,
    master: Map<Seq<char>, u32>,
    fault: SkeletonFault,
    v: int,
)
    requires
        alignment_failed(before, after, names, master, fault),
        fault is LocalJointIndexOutOfRange,
        0 <= v < fault->LocalJointIndexOutOfRange_vertex_index,
    ensures
        after[v] == aligned(before, names, master)[v],
{
    let at = fault->LocalJointIndexOutOfRange_vertex_index as int;
    let want = aligned_vertex(before[v], names, master);
    assert(remapped_upto(before[v], after[v], 4, names, master));
    assert(after[v].bone_indices[0] == want.bone_indices[0]);
    assert(after[v].bone_indices[1] == want.bone_indices[1]);
    assert(after[v].bone_indices[2] == want.bone_indices[2]);
    assert(after[v].bone_indices[3] == want.bone_indices[3]);
    assert(after[v].bone_indices =~= want.bone_indices);
}

/// Renaming a bone in the joint list and in the master skeleton alike changes
/// no index: only the pairing of names counts. Here, two joint lists and two
/// skeletons that agree on every joint give the same vertices.
pub proof fn law_only_the_indices_behind_the_names_count(
    vertices: Seq<SkinnedVertex>,
    names: Seq<Seq<char>>,
    master: Map<Seq<char>, u32>,
    other_names: Seq<Seq<char>>,
    other_master: Map<Seq<char>, u32>,
)
    requires
        can_align(vertices, names, master),
        other_names.len() == names.len(),
        forall|j: int|
            0 <= j < names.len() ==> master[#[trigger] names[j]] == other_master[other_names[j]],
    ensures
        aligned(vertices, names, master) == aligned(vertices, other_names, other_master),
{
    law_a_part_fits_if_its_bones_are_known(vertices, names, master);
    assert forall|v: int| 0 <= v < vertices.len() implies #[trigger] aligned(
        vertices,
        names,
        master,
    )[v] == aligned(vertices, other_names, other_master)[v] by {
        let one = aligned_vertex(vertices[v], names, master);
        let other = aligned_vertex(vertices[v], other_names, other_master);
        assert forall|s: int| 0 <= s < 4 implies #[trigger] one.bone_indices[s]
            == other.bone_indices[s] by {
            law_slots_hold_the_master_index_of_their_bone(vertices, names, master, v, s);
            law_slots_hold_the_master_index_of_their_bone(
                vertices,
                other_names,
                other_master,
                v,
                s,
            );
            let joint = vertices[v].bone_indices[s] as int;
            if joint < names.len() {
                assert(master[names[joint]] == other_master[other_names[joint]]);
            }
            assert(vertices[v].bone_weights[s] == 0 || vertices[v].bone_weights[s] == 0x8000_0000
                || joint < names.len());
        }
        assert(one.bone_indices =~= other.bone_indices);
    }
}

/// A skeleton made of a list of entries gives a bone the index of its last
/// entry, and has no bone without an entry.
pub proof fn law_the_last_entry_of_a_bone_holds(entries: Seq<(String, u32)>, name: Seq<char>, i: int)
    ensures
        entries_map(entries).contains_key(name) <==> exists|j: int|
            0 <= j < entries.len() && (#[trigger] entries[j]).0@ == name,
        0 <= i < entries.len() && entries[i].0@ == name && (forall|j: int|
            i < j < entries.len() ==> (#[trigger] entries[j]).0@ != name) ==> entries_map(
            entries,
        )[name] == entries[i].1,
    decreases entries.len(),
{
    if entries.len() > 0 {
        let front = entries.drop_last();
        law_the_last_entry_of_a_bone_holds(front, name, i);
        let last = entries.len() - 1;
        assert(entries[last] == entries.last());
        if exists|j: int| 0 <= j < entries.len() && (#[trigger] entries[j]).0@ == name {
            let j = choose|j: int| 0 <= j < entries.len() && (#[trigger] entries[j]).0@ == name;
            if j < last {
                assert(front[j] == entries[j]);
            }
        }
        if exists|j: int| 0 <= j < front.len() && (#[trigger] front[j]).0@ == name {
            let j = choose|j: int| 0 <= j < front.len() && (#[trigger] front[j]).0@ == name;
            assert(entries[j] == front[j]);
        }
        if 0 <= i < last && entries[i].0@ == name && (forall|j: int|
            i < j < entries.len() ==> (#[trigger] entries[j]).0@ != name) {
            assert(front[i] == entries[i]);
            assert forall|j: int| i < j < front.len() implies (#[trigger] front[j]).0@ != name by {
                assert(entries[j] == front[j]);
            }
            assert(entries[last].0@ != name);
        }
    }
}

/// A list of names is taken name by name.
pub proof fn law_names_are_taken_one_by_one(names: Seq<String>, i: int)
    ensures
        names_of(names).len() == names.len(),
        0 <= i < names.len() ==> names_of(names)[i] == names[i]@,
{
}

} // verus!
