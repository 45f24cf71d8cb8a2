//! Which files of an asset folder are modular parts, and under which id.
//!
//! Files are judged by their names, taken as bytes: a name need not be valid
//! Unicode.

use vstd::prelude::*;
use vstd::slice::slice_subrange;
use vstd::utf8::{encode_utf8, valid_utf8};

verus! {

/// The loader that a part file goes to.
#[derive(Clone, Copy, Debug, PartialEq, Eq)]
pub enum PartFileKind {
    /// `.gltf` and `.glb`: full skin data.
    Gltf,
    /// `.obj`: no skin data, bound rigidly to one bone.
    Obj,
}

/// Where the extension of a file name starts with its dot. A dot at the very
/// beginning starts no extension.
pub open spec fn extension_dot(name: Seq<u8>) -> Option<int> {
    match name.index_of_last(0x2e) {
        Some(dot) => if dot > 0 {
            Some(dot)
        } else {
            None
        },
        None => None,
    }
}

/// The file name without its extension.
pub open spec fn file_stem(name: Seq<u8>) -> Seq<u8> {
    match extension_dot(name) {
        Some(dot) => name.take(dot),
        None => name,
    }
}

/// The extension of a file name.
pub open spec fn extension(name: Seq<u8>) -> Option<Seq<u8>> {
    match extension_dot(name) {
        Some(dot) => Some(name.skip(dot + 1)),
        None => None,
    }
}

/// A byte with ASCII capitals lowered.
pub open spec fn lowered_spec(byte: u8) -> u8 {
    if 0x41 <= byte <= 0x5a {
        (byte + 0x20) as u8
    } else {
        byte
    }
}

/// A byte with ASCII capitals lowered.
#[verifier::when_used_as_spec(lowered_spec)]
fn lowered(byte: u8) -> (low: u8)
    ensures
        low == lowered_spec(byte),
{
    if 0x41 <= byte && byte <= 0x5a {
        byte + 0x20
    } else {
        byte
    }
}

/// Whether two texts differ at most in the case of ASCII letters.
pub open spec fn equal_ignoring_case(a: Seq<u8>, b: Seq<u8>) -> bool {
    &&& a.len() == b.len()
    &&& forall|i: int| 0 <= i < a.len() ==> lowered_spec(#[trigger] a[i]) == lowered_spec(b[i])
}

/// The loader for a file of this name.
pub open spec fn kind_of_name(name: Seq<u8>) -> Option<PartFileKind> {
    match extension(name) {
        Some(ext) => if equal_ignoring_case(ext, encode_utf8("gltf"@)) || equal_ignoring_case(
            ext,
            encode_utf8("glb"@),
        ) {
            Some(PartFileKind::Gltf)
        } else if equal_ignoring_case(ext, encode_utf8("obj"@)) {
            Some(PartFileKind::Obj)
        } else {
            None
        },
        None => None,
    }
}

/// Whether a byte is an ASCII digit.
pub open spec fn is_digit(byte: u8) -> bool {
    0x30 <= byte <= 0x39
}

/// The longest run of ASCII digits that the bytes start with.
pub open spec fn leading_digits(bytes: Seq<u8>) -> Seq<u8>
    decreases bytes.len(),
{
    if bytes.len() > 0 && is_digit(bytes[0]) {
        seq![bytes[0]] + leading_digits(bytes.skip(1))
    } else {
        seq![]
    }
}

/// The number that a run of digits denotes.
pub open spec fn digits_value(digits: Seq<u8>) -> nat
    decreases digits.len(),
{
    if digits.len() == 0 {
        0
    } else {
        (10 * digits_value(digits.drop_last()) + (digits.last() - 0x30)) as nat
    }
}

/// The part id that a file stem starts with: the number denoted by its leading
/// digits, if there are any and it fits 32 bits. A stem that is not UTF-8 has
/// none.
pub open spec fn id_of_stem(stem: Seq<u8>) -> Option<u32> {
    let digits = leading_digits(stem);
    if valid_utf8(stem) && digits.len() > 0 && digits_value(digits) <= u32::MAX {
        Some(digits_value(digits) as u32)
    } else {
        None
    }
}

/// Calls `std::str::from_utf8`. Claims that it succeeds on valid UTF-8 and on
/// nothing else.
#[verifier::external_body]
fn is_utf8(bytes: &[u8]) -> (b: bool)
    ensures
        b == valid_utf8(bytes@),
{
    std::str::from_utf8(bytes).is_ok()
}

/// Whether two texts differ at most in the case of ASCII letters.
fn eq_ignoring_case(a: &[u8], b: &[u8]) -> (r: bool)
    ensures
        r == equal_ignoring_case(a@, b@),
{
    if a.len() != b.len() {
        return false;
    }
    let mut i: usize = 0;
    while i < a.len()
        invariant
            i <= a@.len(),
            a@.len() == b@.len(),
            forall|j: int| 0 <= j < i ==> lowered_spec(#[trigger] a@[j]) == lowered_spec(b@[j]),
        decreases a@.len() - i,
    {
        if lowered(a[i]) != lowered(b[i]) {
            assert(lowered_spec(a@[i as int]) != lowered_spec(b@[i as int]));
            return false;
        }
        i += 1;
    }
    true
}

/// Where the extension of a file name starts with its dot.
fn find_extension_dot(name: &[u8]) -> (dot: Option<usize>)
    ensures
        match dot {
            Some(at) => extension_dot(name@) == Some(at as int),
            None => extension_dot(name@) is None,
        },
        dot matches Some(at) ==> at < name@.len(),
{
    proof {
        name@.index_of_last_ensures(0x2e);
    }
    let mut i: usize = name.len();
    while i > 0
        invariant
            i <= name@.len(),
            forall|j: int| i <= j < name@.len() ==> name@[j] != 0x2e,
            match name@.index_of_last(0x2e) {
                Some(index) => {
                    &&& 0 <= index < name@.len()
                    &&& name@[index] == 0x2e
                    &&& forall|j: int| index < j < name@.len() ==> name@[j] != 0x2e
                },
                None => !name@.contains(0x2e),
            },
        decreases i,
    {
        if name[i - 1] == 0x2e {
            assert(name@.contains(0x2e));
            return if i - 1 > 0 {
                Some(i - 1)
            } else {
                None
            };
        }
        i -= 1;
    }
    None
}

/// Which loader a directory entry goes to, if it is a part file at all: a file
/// whose extension, in any case of letters, is one of those known.
pub fn classify_part_file(file_name: Option<&[u8]>, is_file: bool) -> (kind: Option<PartFileKind>)
    ensures
        kind == match file_name {
            Some(name) => if is_file {
                kind_of_name(name@)
            } else {
                None
            },
            None => None,
        },
{
    if !is_file {
        return None;
    }
    let name = match file_name {
        Some(name) => name,
        None => {
            return None;
        },
    };
    let dot: usize = match find_extension_dot(name) {
        Some(dot) => dot,
        None => {
            return None;
        },
    };
    let end: usize = name.len();
    let ext = slice_subrange(name, dot + 1, end);
    assert(ext@ == name@.skip(dot + 1));
    if eq_ignoring_case(ext, "gltf".as_bytes()) || eq_ignoring_case(ext, "glb".as_bytes()) {
        Some(PartFileKind::Gltf)
    } else if eq_ignoring_case(ext, "obj".as_bytes()) {
        Some(PartFileKind::Obj)
    } else {
        None
    }
}

/// The part id that a file name starts with, as in `1001_head_male.glb`.
/// Without one the file is to be skipped.
pub fn parse_part_id(file_name: Option<&[u8]>) -> (id: Option<u32>)
    ensures
        id == match file_name {
            Some(name) => id_of_stem(file_stem(name@)),
            None => None,
        },
{
    let name = match file_name {
        Some(name) => name,
        None => {
            return None;
        },
    };
    let end: usize = match find_extension_dot(name) {
        Some(dot) => dot,
        None => name.len(),
    };
    let stem = slice_subrange(name, 0, end);
    assert(stem@ == file_stem(name@));
    if !is_utf8(stem) {
        return None;
    }
    let mut value: Option<u32> = Some(0);
    let mut i: usize = 0;
    assert(stem@.skip(0) == stem@);
    assert(stem@.take(0) + leading_digits(stem@) == leading_digits(stem@));
    while i < stem.len() && 0x30 <= stem[i] && stem[i] <= 0x39
        invariant
            i <= stem@.len(),
            stem@.take(i as int) + leading_digits(stem@.skip(i as int)) == leading_digits(stem@),
            match value {
                Some(v) => v == digits_value(stem@.take(i as int)),
                None => digits_value(stem@.take(i as int)) > u32::MAX,
            },
        decreases stem@.len() - i,
    {
        let ghost rest = stem@.skip(i as int);
        assert(rest.skip(1) == stem@.skip(i + 1));
        assert(stem@.take(i + 1).drop_last() == stem@.take(i as int));
        assert(stem@.take(i as int) + leading_digits(rest) == stem@.take(i + 1) + leading_digits(
            rest.skip(1),
        ));
        let digit: u32 = (stem[i] - 0x30) as u32;
        value = match value {
            Some(v) => match v.checked_mul(10) {
                Some(shifted) => shifted.checked_add(digit),
                None => None,
            },
            None => None,
        };
        i += 1;
    }
    assert(leading_digits(stem@.skip(i as int)) == Seq::<u8>::empty());
    assert(stem@.take(i as int) == leading_digits(stem@));
    if i == 0 {
        return None;
    }
    value
}

} // verus!
