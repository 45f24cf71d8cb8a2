//! The master skeleton, against the real `serde_json` crate.

use anthroforge::skeleton_resolver::{
    load_master_skeleton, resolve_bone_indices, skeleton_from_entries, MasterSkeleton, SkeletonError,
};
use anthroforge::vertex::{is_zero_float, SkinnedVertex};

fn skeleton(raw: &str) -> MasterSkeleton {
    load_master_skeleton("master_skeleton.json", Ok(raw.to_string())).unwrap_or_else(|e| panic!("{}", e.message()))
}

fn vertex(bone_indices: [u16; 4], weights: [f32; 4]) -> SkinnedVertex {
    SkinnedVertex {
        position: [1.0f32, 2.0, 3.0].map(|x| x.to_bits()),
        normal: [4.0f32, 5.0, 6.0].map(|x| x.to_bits()),
        uv: [7.0f32, 8.0].map(|x| x.to_bits()),
        bone_indices,
        bone_weights: weights.map(|x| x.to_bits()),
    }
}

fn names(list: &[&str]) -> Vec<String> {
    list.iter().map(|n| n.to_string()).collect()
}

#[test]
fn a_flat_object_is_a_skeleton() {
    let s = skeleton(r#"{"root": 0, "neck_01": 5, "spine_02": 4294967295}"#);
    assert_eq!(s.get("root"), Some(0));
    assert_eq!(s.get("neck_01"), Some(5));
    assert_eq!(s.get("spine_02"), Some(4294967295));
    assert_eq!(s.get("tail"), None);
    assert_eq!(skeleton("{}").get("root"), None);
    assert_eq!(skeleton(r#"{"a": 1, "a": 2}"#).get("a"), Some(2));
}

#[test]
fn other_contents_are_rejected() {
    for raw in ["", "[]", "{", r#"{"root": -1}"#, r#"{"root": "0"}"#, r#"{"root": 4294967296}"#, r#"{"root": 1.5}"#] {
        match load_master_skeleton("dir/master_skeleton.json", Ok(raw.to_string())) {
            Err(e) => {
                assert!(matches!(e, SkeletonError::Parse { .. }));
                assert!(e.message().starts_with("failed to parse 'dir/master_skeleton.json' as JSON: "));
                assert!(e.source().is_some());
            }
            Ok(_) => panic!("accepted {raw}"),
        }
    }
}

#[test]
fn a_file_that_cannot_be_read_is_reported() {
    match load_master_skeleton("s.json", Err("gone".to_string())) {
        Err(e) => {
            assert!(matches!(e, SkeletonError::Io { .. }));
            assert_eq!(e.message(), "failed to read 's.json': gone");
            assert_eq!(e.source(), Some("gone"));
        }
        Ok(_) => panic!("expected an error"),
    }
}

#[test]
fn of_two_entries_the_later_holds() {
    let s = skeleton_from_entries(&vec![
        ("a".to_string(), 1),
        ("b".to_string(), 2),
        ("a".to_string(), 3),
    ]);
    assert_eq!(s.get("a"), Some(3));
    assert_eq!(s.get("b"), Some(2));
    assert_eq!(s.get("c"), None);
}

#[test]
fn one_bone_is_one_number_in_every_part() {
    let s = skeleton(r#"{"root": 0, "neck_01": 10, "spine_02": 20}"#);
    let mut head = [vertex([0, 1, 0, 0], [0.5, 0.5, 0.0, 0.0])];
    let mut torso = [vertex([0, 1, 2, 0], [0.25, 0.5, 0.25, 0.0])];
    assert!(resolve_bone_indices(&mut head, &names(&["neck_01", "spine_02"]), &s).is_ok());
    assert!(resolve_bone_indices(&mut torso, &names(&["root", "spine_02", "neck_01"]), &s).is_ok());
    assert_eq!(head[0].bone_indices, [10, 20, 0, 0]);
    assert_eq!(torso[0].bone_indices, [0, 20, 10, 0]);
    assert_eq!(head[0].bone_indices[1], torso[0].bone_indices[1]);
}

#[test]
fn slots_without_influence_are_left_alone() {
    let s = skeleton(r#"{"root": 3}"#);
    let mut v = [vertex([0, 999, 7, 65535], [1.0, 0.0, -0.0, 0.0])];
    assert!(resolve_bone_indices(&mut v, &names(&["root"]), &s).is_ok());
    assert_eq!(v[0], vertex([3, 999, 7, 65535], [1.0, 0.0, -0.0, 0.0]));
}

#[test]
fn odd_weights_are_influence() {
    let s = skeleton(r#"{"root": 3}"#);
    let weights = [f32::NAN, -1.0, f32::MIN_POSITIVE / 2.0, f32::INFINITY];
    let mut v = [vertex([0, 0, 0, 0], weights)];
    assert!(resolve_bone_indices(&mut v, &names(&["root"]), &s).is_ok());
    assert_eq!(v[0].bone_indices, [3, 3, 3, 3]);
}

#[test]
fn zeros_are_told_from_the_rest_as_floats_are() {
    for x in [0.0f32, -0.0, 1.0, -1.0, f32::NAN, f32::MIN_POSITIVE, f32::MAX, f32::INFINITY] {
        assert_eq!(is_zero_float(x.to_bits()), x == 0.0);
    }
    assert!(!is_zero_float(1));
    assert!(!is_zero_float(0x8000_0001));
}

#[test]
fn large_indices_saturate() {
    let s = skeleton(r#"{"a": 65535, "b": 65536, "c": 4294967295, "d": 65534}"#);
    let mut v = [vertex([0, 1, 2, 3], [1.0; 4])];
    assert!(resolve_bone_indices(&mut v, &names(&["a", "b", "c", "d"]), &s).is_ok());
    assert_eq!(v[0].bone_indices, [65535, 65535, 65535, 65534]);
}

#[test]
fn unknown_bones_are_rejected_even_when_unused() {
    let s = skeleton(r#"{"root": 3}"#);
    let mut v = [vertex([0, 0, 0, 0], [1.0, 0.0, 0.0, 0.0])];
    let e = resolve_bone_indices(&mut v, &names(&["root", "tail", "wing"]), &s).unwrap_err();
    assert_eq!(
        e.message(),
        "bone 'tail' (local joint index 1) does not exist in master_skeleton.json; part is incompatible with the master rig"
    );
    assert!(matches!(e, SkeletonError::UnknownBone { local_joint_index: 1, .. }));
    assert_eq!(e.source(), None);
    assert_eq!(v[0].bone_indices, [0, 0, 0, 0]);
}

#[test]
fn joints_past_the_list_stop_the_alignment() {
    let s = skeleton(r#"{"root": 3, "neck": 4}"#);
    let before = vertex([1, 0, 0, 0], [1.0, 1.0, 0.0, 0.0]);
    let broken = vertex([1, 2, 0, 1], [1.0, 1.0, 1.0, 1.0]);
    let mut v = [before, broken, before];
    let e = resolve_bone_indices(&mut v, &names(&["root", "neck"]), &s).unwrap_err();
    assert_eq!(
        e.message(),
        "vertex[1] references local joint index 2, but the part only defines 2 joints"
    );
    assert!(matches!(
        e,
        SkeletonError::LocalJointIndexOutOfRange { vertex_index: 1, local_index: 2, local_joint_count: 2 }
    ));
    assert_eq!(v[0].bone_indices, [4, 3, 0, 0]);
    assert_eq!(v[1].bone_indices, [4, 2, 0, 1]);
    assert_eq!(v[2].bone_indices, [1, 0, 0, 0]);
}

#[test]
fn empty_parts_are_aligned() {
    let s = skeleton("{}");
    let mut none: [SkinnedVertex; 0] = [];
    assert!(resolve_bone_indices(&mut none, &names(&[]), &s).is_ok());
    let mut v = [vertex([5, 5, 5, 5], [0.0; 4])];
    assert!(resolve_bone_indices(&mut v, &names(&[]), &s).is_ok());
    assert_eq!(v[0].bone_indices, [5, 5, 5, 5]);
}
