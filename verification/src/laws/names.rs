//! Which files are parts, and under which id.

use vstd::prelude::*;
use vstd::utf8::{encode_utf8, is_ascii_chars, is_ascii_chars_encode_utf8, valid_utf8};

use crate::part_file::{
    digits_value, equal_ignoring_case, extension, file_stem, id_of_stem, kind_of_name,
    leading_digits, lowered_spec, PartFileKind,
};

verus! {

/// The number that a row of ASCII digits stands for, read from the left.
pub open spec fn value_read(digits: Seq<u8>, so_far: nat) -> nat
    decreases digits.len(),
{
    if digits.len() == 0 {
        so_far
    } else {
        value_read(digits.skip(1), (10 * so_far + (digits[0] - 0x30)) as nat)
    }
}

/// Reading one digit more multiplies by ten and adds it.
proof fn lemma_value_read_push(digits: Seq<u8>, digit: u8, so_far: nat)
    requires
        digit >= 0x30,
    ensures
        value_read(digits.push(digit), so_far) == 10 * value_read(digits, so_far) + (digit - 0x30),
    decreases digits.len(),
{
    reveal_with_fuel(value_read, 2);
    if digits.len() == 0 {
        assert(digits.push(digit).skip(1) == digits);
    } else {
        assert(digits.push(digit).skip(1) == digits.skip(1).push(digit));
        lemma_value_read_push(
            digits.skip(1),
            digit,
            (10 * so_far + (digits[0] - 0x30)) as nat,
        );
    }
}

/// Both ways of reading digits come to the same number.
proof fn lemma_values_agree(digits: Seq<u8>)
    requires
        forall|i: int| 0 <= i < digits.len() ==> 0x30 <= #[trigger] digits[i] <= 0x39,
    ensures
        digits_value(digits) == value_read(digits, 0),
    decreases digits.len(),
{
    if digits.len() > 0 {
        lemma_values_agree(digits.drop_last());
        lemma_value_read_push(digits.drop_last(), digits.last(), 0);
        assert(digits.drop_last().push(digits.last()) == digits);
    }
}

/// The digits that bytes start with end where the digits do.
proof fn lemma_leading_digits(digits: Seq<u8>, rest: Seq<u8>)
    requires
        forall|i: int| 0 <= i < digits.len() ==> 0x30 <= #[trigger] digits[i] <= 0x39,
        rest.len() > 0 ==> rest[0] < 0x30 || rest[0] > 0x39,
    ensures
        leading_digits(digits + rest) == digits,
    decreases digits.len(),
{
    if digits.len() > 0 {
        assert((digits + rest).skip(1) == digits.skip(1) + rest);
        lemma_leading_digits(digits.skip(1), rest);
        assert(seq![digits[0]] + digits.skip(1) == digits);
        assert((digits + rest)[0] == digits[0]);
    } else {
        assert(digits + rest == rest);
    }
}

/// The id of a part is the number that its file name starts with, read in
/// decimal up to the first byte that is no digit, if it fits 32 bits. What comes
/// after does not matter, nor do leading zeros.
pub proof fn law_the_id_is_the_number_in_front(digits: Seq<u8>, rest: Seq<u8>)
    requires
        forall|i: int| 0 <= i < digits.len() ==> 0x30 <= #[trigger] digits[i] <= 0x39,
        rest.len() > 0 ==> rest[0] < 0x30 || rest[0] > 0x39,
    ensures
        id_of_stem(digits + rest) == (if valid_utf8(digits + rest) && digits.len() > 0
            && value_read(digits, 0) <= u32::MAX {
            Some(value_read(digits, 0) as u32)
        } else {
            None
        }),
{
    lemma_leading_digits(digits, rest);
    lemma_values_agree(digits);
}

/// A zero in front changes no number.
pub proof fn law_leading_zeros_do_not_count(digits: Seq<u8>)
    requires
        forall|i: int| 0 <= i < digits.len() ==> 0x30 <= #[trigger] digits[i] <= 0x39,
    ensures
        digits_value(seq![0x30u8] + digits) == digits_value(digits),
{
    let more = seq![0x30u8] + digits;
    lemma_values_agree(digits);
    assert forall|i: int| 0 <= i < more.len() implies 0x30 <= #[trigger] more[i] <= 0x39 by {
        if i > 0 {
            assert(more[i] == digits[i - 1]);
        }
    }
    lemma_values_agree(more);
    assert(more.skip(1) == digits);
}

/// A file name is parted at its last dot: what is in front is the stem, what
/// follows is the extension. A dot at the very front parts nothing.
pub proof fn law_a_name_is_parted_at_its_last_dot(stem: Seq<u8>, ext: Seq<u8>)
    requires
        !ext.contains(0x2e),
    ensures
        stem.len() > 0 ==> file_stem(stem + seq![0x2eu8] + ext) == stem && extension(
            stem + seq![0x2eu8] + ext,
        ) == Some(ext),
        file_stem(seq![0x2eu8] + ext) == seq![0x2eu8] + ext,
        extension(seq![0x2eu8] + ext) is None,
        file_stem(ext) == ext,
        extension(ext) is None,
{
    lemma_last_dot(stem, ext);
    lemma_last_dot(seq![], ext);
    assert(Seq::<u8>::empty() + seq![0x2eu8] + ext == seq![0x2eu8] + ext);
    ext.index_of_last_ensures(0x2e);
    let name = stem + seq![0x2eu8] + ext;
    assert(name.take(stem.len() as int) == stem);
    assert(name.skip(stem.len() as int + 1) == ext);
}

/// The last dot of a name whose extension has none.
proof fn lemma_last_dot(stem: Seq<u8>, ext: Seq<u8>)
    requires
        !ext.contains(0x2e),
    ensures
        (stem + seq![0x2eu8] + ext).index_of_last(0x2e) == Some(stem.len() as int),
{
    let name = stem + seq![0x2eu8] + ext;
    name.index_of_last_ensures(0x2e);
    let at = stem.len() as int;
    assert(name[at] == 0x2e);
    assert(name.contains(0x2e));
    let last = name.index_of_last(0x2e)->0;
    if last > at {
        assert(name[last] == ext[last - at - 1]);
        assert(ext.contains(0x2e));
    }
}

/// Whether a byte is one of the two cases of a letter.
pub open spec fn is_letter(byte: u8, lower: u8) -> bool {
    byte == lower || byte + 0x20 == lower
}

/// Comparing without regard to case, letter by letter.
proof fn lemma_same_letters(ext: Seq<u8>, text: Seq<char>)
    requires
        is_ascii_chars(text),
        forall|i: int| 0 <= i < text.len() ==> 'a' <= (#[trigger] text[i]) <= 'z',
    ensures
        equal_ignoring_case(ext, encode_utf8(text)) <==> ext.len() == text.len() && forall|i: int|
            0 <= i < text.len() ==> is_letter(#[trigger] ext[i], text[i] as u8),
{
    is_ascii_chars_encode_utf8(text);
    let bytes = encode_utf8(text);
    assert forall|i: int| 0 <= i < text.len() && i < ext.len() implies (lowered_spec(
        #[trigger] ext[i],
    ) == lowered_spec(bytes[i]) <==> is_letter(ext[i], text[i] as u8)) by {
        assert(bytes[i] == text[i] as u8);
        assert(0x61 <= bytes[i] <= 0x7a);
    }
}

/// A file is a glTF part if its extension is `gltf` or `glb`, an OBJ part if it
/// is `obj`, each in any case of letters, and no part otherwise.
pub proof fn law_the_extension_tells_the_kind(stem: Seq<u8>, ext: Seq<u8>)
    requires
        stem.len() > 0,
        !ext.contains(0x2e),
    ensures
        ({
            let kind = kind_of_name(stem + seq![0x2eu8] + ext);
            let gltf = ext.len() == 4 && is_letter(ext[0], 0x67) && is_letter(ext[1], 0x6c)
                && is_letter(ext[2], 0x74) && is_letter(ext[3], 0x66);
            let glb = ext.len() == 3 && is_letter(ext[0], 0x67) && is_letter(ext[1], 0x6c)
                && is_letter(ext[2], 0x62);
            let obj = ext.len() == 3 && is_letter(ext[0], 0x6f) && is_letter(ext[1], 0x62)
                && is_letter(ext[2], 0x6a);
            &&& kind == Some(PartFileKind::Gltf) <==> gltf || glb
            &&& kind == Some(PartFileKind::Obj) <==> obj
            &&& kind is None <==> !gltf && !glb && !obj
        }),
        kind_of_name(ext) is None,
        kind_of_name(seq![0x2eu8] + ext) is None,
{
    law_a_name_is_parted_at_its_last_dot(stem, ext);
    reveal_strlit("gltf");
    reveal_strlit("glb");
    reveal_strlit("obj");
    lemma_same_letters(ext, "gltf"@);
    lemma_same_letters(ext, "glb"@);
    lemma_same_letters(ext, "obj"@);
    if ext.len() == 4 {
        assert("gltf"@[0] == 'g' && "gltf"@[1] == 'l' && "gltf"@[2] == 't' && "gltf"@[3] == 'f');
        assert(is_letter(ext[0], 0x67) && is_letter(ext[1], 0x6c) && is_letter(ext[2], 0x74)
            && is_letter(ext[3], 0x66) <==> forall|i: int|
            0 <= i < 4 ==> is_letter(#[trigger] ext[i], "gltf"@[i] as u8));
    }
    if ext.len() == 3 {
        assert("glb"@[0] == 'g' && "glb"@[1] == 'l' && "glb"@[2] == 'b');
        assert("obj"@[0] == 'o' && "obj"@[1] == 'b' && "obj"@[2] == 'j');
        assert(is_letter(ext[0], 0x67) && is_letter(ext[1], 0x6c) && is_letter(ext[2], 0x62)
            <==> forall|i: int|
            0 <= i < 3 ==> is_letter(#[trigger] ext[i], "glb"@[i] as u8));
        assert(is_letter(ext[0], 0x6f) && is_letter(ext[1], 0x62) && is_letter(ext[2], 0x6a)
            <==> forall|i: int|
            0 <= i < 3 ==> is_letter(#[trigger] ext[i], "obj"@[i] as u8));
    }
}

} // verus!
