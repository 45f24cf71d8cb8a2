//! Where the data of a buffer comes from.

use vstd::prelude::*;
use vstd::utf8::{encode_utf8, is_ascii_chars, is_ascii_chars_encode_utf8};

use crate::uri::{
    base64_decoded, buffer_origin, hex_value_spec, lossy_text, occurs, percent_decoded, stands_at,
    starts_with_escape, uri_source, BufferOrigin, BufferSource, UriSource, UriSpec,
};

verus! {

/// A hexadecimal digit, in capitals or not.
pub open spec fn hex_digit(value: u8, capital: bool) -> u8 {
    if value < 10 {
        (0x30 + value) as u8
    } else if capital {
        (0x41 + value - 10) as u8
    } else {
        (0x61 + value - 10) as u8
    }
}

/// The value of a hexadecimal digit is the number that it is the digit of, in
/// capitals or not, and nothing else has a value.
pub proof fn law_a_hex_digit_has_its_value(value: u8, capital: bool, digit: u8)
    ensures
        value < 16 ==> hex_value_spec(hex_digit(value, capital)) == Some(value),
        hex_value_spec(digit) matches Some(v) ==> v < 16 && (digit == hex_digit(v, true) || digit
            == hex_digit(v, false)),
{
}

/// The bytes with every byte written as an escape.
pub open spec fn escaped(bytes: Seq<u8>, capital: bool) -> Seq<u8>
    decreases bytes.len(),
{
    if bytes.len() == 0 {
        seq![]
    } else {
        seq![
            0x25u8,
            hex_digit((bytes[0] / 16) as u8, capital),
            hex_digit((bytes[0] % 16) as u8, capital),
        ] + escaped(bytes.skip(1), capital)
    }
}

/// Decoding undoes escaping, whatever the bytes.
pub proof fn law_decoding_undoes_escaping(bytes: Seq<u8>, capital: bool)
    ensures
        percent_decoded(escaped(bytes, capital)) == bytes,
    decreases bytes.len(),
{
    if bytes.len() > 0 {
        let all = escaped(bytes, capital);
        let rest = escaped(bytes.skip(1), capital);
        law_a_hex_digit_has_its_value((bytes[0] / 16) as u8, capital, 0);
        law_a_hex_digit_has_its_value((bytes[0] % 16) as u8, capital, 0);
        assert(all.skip(3) == rest);
        assert(starts_with_escape(all));
        law_decoding_undoes_escaping(bytes.skip(1), capital);
        assert(seq![bytes[0]] + bytes.skip(1) == bytes);
    }
}

/// An escape in front becomes the byte that it stands for; any other byte in
/// front, a percent sign too, stays as it is. Decoding goes on behind it.
pub proof fn law_decoding_goes_from_the_front(byte: u8, high: u8, low: u8, rest: Seq<u8>)
    ensures
        hex_value_spec(high) is Some && hex_value_spec(low) is Some ==> percent_decoded(
            seq![0x25u8, high, low] + rest,
        ) == seq![
            (16 * hex_value_spec(high)->0 + hex_value_spec(low)->0) as u8,
        ] + percent_decoded(rest),
        byte != 0x25 ==> percent_decoded(seq![byte] + rest) == seq![byte] + percent_decoded(rest),
        rest.len() < 2 || hex_value_spec(rest[0]) is None || hex_value_spec(rest[1]) is None
            ==> percent_decoded(seq![0x25u8] + rest) == seq![0x25u8] + percent_decoded(rest),
{
    let escape = seq![0x25u8, high, low] + rest;
    assert(escape.skip(3) == rest);
    let plain = seq![byte] + rest;
    assert(plain.skip(1) == rest);
    assert(plain[0] == byte);
    let lone = seq![0x25u8] + rest;
    assert(lone.skip(1) == rest);
    if lone.len() >= 3 {
        assert(lone[1] == rest[0] && lone[2] == rest[1]);
    }
}

/// Decoding never makes a path longer.
pub proof fn law_decoding_makes_nothing_longer(bytes: Seq<u8>)
    ensures
        percent_decoded(bytes).len() <= bytes.len(),
    decreases bytes.len(),
{
    if bytes.len() > 0 {
        if starts_with_escape(bytes) {
            law_decoding_makes_nothing_longer(bytes.skip(3));
        } else {
            law_decoding_makes_nothing_longer(bytes.skip(1));
        }
    }
}

/// The bytes of the texts that URIs are taken apart by.
proof fn lemma_separators()
    ensures
        encode_utf8("data:"@) == seq![0x64u8, 0x61u8, 0x74u8, 0x61u8, 0x3au8],
        encode_utf8("base64,"@) == seq![0x62u8, 0x61u8, 0x73u8, 0x65u8, 0x36u8, 0x34u8, 0x2cu8],
        encode_utf8("://"@) == seq![0x3au8, 0x2fu8, 0x2fu8],
{
    reveal_strlit("data:");
    reveal_strlit("base64,");
    reveal_strlit("://");
    assert(is_ascii_chars("data:"@));
    assert(is_ascii_chars("base64,"@));
    assert(is_ascii_chars("://"@));
    is_ascii_chars_encode_utf8("data:"@);
    is_ascii_chars_encode_utf8("base64,"@);
    is_ascii_chars_encode_utf8("://"@);
    assert forall|i: int| 0 <= i < 5 implies #[trigger] encode_utf8("data:"@)[i]
        == seq![0x64u8, 0x61u8, 0x74u8, 0x61u8, 0x3au8][i] by {
        assert("data:"@[i] as u8 == encode_utf8("data:"@)[i]);
    }
    assert forall|i: int| 0 <= i < 7 implies #[trigger] encode_utf8("base64,"@)[i]
        == seq![0x62u8, 0x61u8, 0x73u8, 0x65u8, 0x36u8, 0x34u8, 0x2cu8][i] by {
        assert("base64,"@[i] as u8 == encode_utf8("base64,"@)[i]);
    }
    assert forall|i: int| 0 <= i < 3 implies #[trigger] encode_utf8("://"@)[i]
        == seq![0x3au8, 0x2fu8, 0x2fu8][i] by {
        assert("://"@[i] as u8 == encode_utf8("://"@)[i]);
    }
}

/// A `data:` URI is parted at its first semicolon, whatever its media type: if
/// `base64,` follows, the rest is the payload, all of it.
pub proof fn law_a_data_uri_gives_its_payload(media: Seq<u8>, rest: Seq<u8>, payload: Seq<u8>)
    requires
        !media.contains(0x3b),
    ensures
        ({
            let data = seq![0x64u8, 0x61u8, 0x74u8, 0x61u8, 0x3au8];
            let base64 = seq![0x62u8, 0x61u8, 0x73u8, 0x65u8, 0x36u8, 0x34u8, 0x2cu8];
            &&& uri_source(data + media) is NoSeparator
            &&& uri_source(data + media + seq![0x3bu8] + base64 + payload) == UriSpec::Base64(
                payload,
            )
            &&& rest.len() < 7 || rest.take(7) != base64 ==> uri_source(
                data + media + seq![0x3bu8] + rest,
            ) is NotBase64
        }),
{
    lemma_separators();
    let data = seq![0x64u8, 0x61u8, 0x74u8, 0x61u8, 0x3au8];
    let base64 = seq![0x62u8, 0x61u8, 0x73u8, 0x65u8, 0x36u8, 0x34u8, 0x2cu8];
    let bare = data + media;
    assert(bare.subrange(0, 5) == data);
    assert(stands_at(bare, 0, data));
    assert(bare.skip(5) == media);
    media.index_of_first_ensures(0x3b);

    lemma_first_semicolon(media, base64 + payload);
    let whole = data + media + seq![0x3bu8] + base64 + payload;
    assert(whole.subrange(0, 5) == data);
    assert(stands_at(whole, 0, data));
    assert(whole.skip(5) == media + seq![0x3bu8] + (base64 + payload));
    let tail = whole.skip(5).skip(media.len() as int + 1);
    assert(tail == base64 + payload);
    assert(tail.subrange(0, 7) == base64);
    assert(stands_at(tail, 0, base64));
    assert(tail.skip(7) == payload);

    lemma_first_semicolon(media, rest);
    let other = data + media + seq![0x3bu8] + rest;
    assert(other.subrange(0, 5) == data);
    assert(stands_at(other, 0, data));
    assert(other.skip(5) == media + seq![0x3bu8] + rest);
    assert(other.skip(5).skip(media.len() as int + 1) == rest);
    if rest.len() >= 7 {
        assert(rest.subrange(0, 7) == rest.take(7));
    }
}

/// The first semicolon comes where the text without one ends.
proof fn lemma_first_semicolon(media: Seq<u8>, rest: Seq<u8>)
    requires
        !media.contains(0x3b),
    ensures
        (media + seq![0x3bu8] + rest).index_of_first(0x3b) == Some(media.len() as int),
{
    let all = media + seq![0x3bu8] + rest;
    all.index_of_first_ensures(0x3b);
    let at = media.len() as int;
    assert(all[at] == 0x3b);
    assert(all.contains(0x3b));
    let first = all.index_of_first(0x3b)->0;
    if first < at {
        assert(all[first] == media[first]);
        assert(media.contains(0x3b));
    }
}

/// A URI that does not start with `data:` is remote if `://` stands anywhere in
/// it. If not it is a relative path, and the path is the decoded URI.
pub proof fn law_other_uris_are_remote_or_relative(uri: Seq<u8>)
    requires
        uri.len() < 5 || uri.take(5) != seq![0x64u8, 0x61u8, 0x74u8, 0x61u8, 0x3au8],
    ensures
        uri_source(uri) is Remote <==> exists|i: int|
            0 <= i && i + 3 <= uri.len() && (#[trigger] uri[i]) == 0x3a && uri[i + 1] == 0x2f
                && uri[i + 2] == 0x2f,
        uri_source(uri) is Remote || uri_source(uri) == UriSpec::Relative(
            lossy_text(percent_decoded(uri)),
        ),
{
    lemma_separators();
    let needle = seq![0x3au8, 0x2fu8, 0x2fu8];
    if uri.len() >= 5 {
        assert(uri.subrange(0, 5) == uri.take(5));
    }
    if occurs(uri, needle) {
        let at = choose|at: int| #[trigger] stands_at(uri, at, needle);
        let found = uri.subrange(at, at + 3);
        assert(found[0] == uri[at] && found[1] == uri[at + 1] && found[2] == uri[at + 2]);
    }
    if exists|i: int|
        0 <= i && i + 3 <= uri.len() && (#[trigger] uri[i]) == 0x3a && uri[i + 1] == 0x2f && uri[i
            + 2] == 0x2f {
        let i = choose|i: int|
            0 <= i && i + 3 <= uri.len() && (#[trigger] uri[i]) == 0x3a && uri[i + 1] == 0x2f
                && uri[i + 2] == 0x2f;
        assert(uri.subrange(i, i + 3) == needle);
        assert(stands_at(uri, i, needle));
    }
}

/// A buffer without URI is the binary chunk of its file, all of it. A payload is
/// what it decodes to. A relative URI is the file at that path. Everything else
/// is refused, for a reason that tells it.
pub proof fn law_a_buffer_comes_from_where_its_uri_says(uri: Seq<char>, blob: Seq<u8>)
    ensures
        buffer_origin(None, Some(blob)) == BufferOrigin::Data(blob),
        buffer_origin(None, None) is Nowhere,
        uri_source(encode_utf8(uri)) matches UriSpec::Base64(payload) ==> match base64_decoded(
            payload,
        ) {
            Ok(data) => buffer_origin(Some(uri), None) == BufferOrigin::Data(data),
            Err(e) => buffer_origin(Some(uri), None) == BufferOrigin::Nowhere(
                "invalid base64 in data URI: "@ + e,
            ),
        },
        uri_source(encode_utf8(uri)) matches UriSpec::Relative(path) ==> buffer_origin(
            Some(uri),
            None,
        ) == BufferOrigin::File(path),
        uri_source(encode_utf8(uri)) is Remote ==> buffer_origin(Some(uri), None)
            == BufferOrigin::Nowhere(
            "unsupported remote URI scheme (only relative file paths and base64 data URIs are supported): '"@
                + uri + "'"@,
        ),
        uri_source(encode_utf8(uri)) is NoSeparator ==> buffer_origin(Some(uri), None)
            == BufferOrigin::Nowhere("malformed data URI (no ';' separator): '"@ + uri + "'"@),
        uri_source(encode_utf8(uri)) is NotBase64 ==> buffer_origin(Some(uri), None)
            == BufferOrigin::Nowhere(
            "data URI is not base64-encoded (only base64 data URIs are supported)"@,
        ),
        buffer_origin(Some(uri), Some(blob)) == buffer_origin(Some(uri), None),
{
}

/// What a URI says, and where a buffer is, is what the values hold.
pub proof fn law_sources_are_what_they_hold(source: UriSource<'_>, buffer: BufferSource)
    ensures
        source matches UriSource::Base64(payload) ==> source@ == UriSpec::Base64(payload@),
        source matches UriSource::Relative(path) ==> source@ == UriSpec::Relative(path@),
        source is Remote <==> source@ is Remote,
        source is NoSeparator <==> source@ is NoSeparator,
        source is NotBase64 <==> source@ is NotBase64,
        buffer matches BufferSource::Data(data) ==> buffer@ == BufferOrigin::Data(data@),
        buffer matches BufferSource::File(path) ==> buffer@ == BufferOrigin::File(path@),
        buffer matches BufferSource::Nowhere(reason) ==> buffer@ == BufferOrigin::Nowhere(reason@),
{
}

} // verus!
