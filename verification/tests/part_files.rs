//! Part files by name.

use anthroforge::init::{judge_entry, EntryVerdict};
use anthroforge::part_file::{classify_part_file, parse_part_id, PartFileKind};

fn kind(name: &str) -> Option<PartFileKind> {
    classify_part_file(Some(name.as_bytes()), true)
}

fn id(name: &str) -> Option<u32> {
    parse_part_id(Some(name.as_bytes()))
}

#[test]
fn extensions_route_to_loaders() {
    assert_eq!(kind("1_a.gltf"), Some(PartFileKind::Gltf));
    assert_eq!(kind("1_a.glb"), Some(PartFileKind::Gltf));
    assert_eq!(kind("1_a.GlTf"), Some(PartFileKind::Gltf));
    assert_eq!(kind("1_a.GLB"), Some(PartFileKind::Gltf));
    assert_eq!(kind("1_a.obj"), Some(PartFileKind::Obj));
    assert_eq!(kind("1_a.Obj"), Some(PartFileKind::Obj));
    assert_eq!(kind("1_a.tar.glb"), Some(PartFileKind::Gltf));
}

#[test]
fn other_names_are_no_parts() {
    for name in ["master_skeleton.json", "glb", ".glb", "a.glb2", "a.gl", "a.", "", "a.glb.bak"] {
        assert_eq!(kind(name), None);
    }
    assert_eq!(kind("..glb"), Some(PartFileKind::Gltf));
    assert_eq!(classify_part_file(None, true), None);
}

#[test]
fn folders_are_no_parts() {
    assert_eq!(classify_part_file(Some(b"1_a.glb"), false), None);
}

#[test]
fn extensions_need_no_utf8_stem() {
    assert_eq!(classify_part_file(Some(b"1\xff.glb"), true), Some(PartFileKind::Gltf));
    assert_eq!(classify_part_file(Some(b"1.gl\xff"), true), None);
}

#[test]
fn leading_digits_are_the_part_id() {
    assert_eq!(id("1001_head_male.glb"), Some(1001));
    assert_eq!(id("7.obj"), Some(7));
    assert_eq!(id("7"), Some(7));
    assert_eq!(id("0"), Some(0));
    assert_eq!(id("007x8.glb"), Some(7));
    assert_eq!(id("12\u{e9}.glb"), Some(12));
    assert_eq!(id("12.34.glb"), Some(12));
}

#[test]
fn names_without_leading_digits_have_no_part_id() {
    for name in ["head_1001.glb", "_1.glb", " 1.glb", "+1.glb", "-1.glb", "", ".1.glb", ".1"] {
        assert_eq!(id(name), None);
    }
    assert_eq!(id("\u{661}.glb"), None);
    assert_eq!(parse_part_id(None), None);
}

#[test]
fn part_ids_fit_32_bits() {
    assert_eq!(id("4294967295.glb"), Some(4294967295));
    assert_eq!(id("4294967296.glb"), None);
    assert_eq!(id("42949672950.glb"), None);
    assert_eq!(id("99999999999999999999999999.glb"), None);
    assert_eq!(id("00000000000000000000000000012.glb"), Some(12));
}

#[test]
fn part_ids_need_a_utf8_stem() {
    assert_eq!(parse_part_id(Some(b"12\xff.glb")), None);
    assert_eq!(parse_part_id(Some(b"12.\xff")), Some(12));
}

#[test]
fn entries_are_judged_by_kind_first() {
    let judge = |name: &str| judge_entry(Some(name.as_bytes()), true);
    assert_eq!(judge("12_a.glb"), EntryVerdict::Load { kind: PartFileKind::Gltf, part_id: 12 });
    assert_eq!(judge("12_a.obj"), EntryVerdict::Load { kind: PartFileKind::Obj, part_id: 12 });
    assert_eq!(judge("a.obj"), EntryVerdict::NoPartId);
    assert_eq!(judge("12_a.json"), EntryVerdict::NotAPart);
    assert_eq!(judge("readme.md"), EntryVerdict::NotAPart);
    assert_eq!(judge_entry(Some(b"12_a.glb"), false), EntryVerdict::NotAPart);
    assert_eq!(judge_entry(None, true), EntryVerdict::NotAPart);
}
