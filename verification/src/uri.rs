//! Where the data of a glTF buffer comes from, as told by its URI.
//!
//! A buffer is the binary chunk of its own file, a base64 `data:` URI, or a
//! file named by a relative, percent-encoded path. URIs are taken apart byte
//! by byte: every separator is ASCII, so no byte of another character can be
//! mistaken for one.

use vstd::prelude::*;
use vstd::slice::{slice_subrange, slice_to_vec};
use vstd::utf8::{decode_utf8, encode_utf8, encode_utf8_decode_utf8, encode_utf8_valid_utf8, valid_utf8};

verus! {

/// The value of a hexadecimal digit.
pub open spec fn hex_value_spec(digit: u8) -> Option<u8> {
    if 0x30 <= digit <= 0x39 {
        Some((digit - 0x30) as u8)
    } else if 0x41 <= digit <= 0x46 {
        Some((digit - 0x37) as u8)
    } else if 0x61 <= digit <= 0x66 {
        Some((digit - 0x57) as u8)
    } else {
        None
    }
}

/// The value of a hexadecimal digit.
#[verifier::when_used_as_spec(hex_value_spec)]
pub fn hex_value(digit: u8) -> (value: Option<u8>)
    ensures
        value == hex_value_spec(digit),
{
    if 0x30 <= digit && digit <= 0x39 {
        Some(digit - 0x30)
    } else if 0x41 <= digit && digit <= 0x46 {
        Some(digit - 0x37)
    } else if 0x61 <= digit && digit <= 0x66 {
        Some(digit - 0x57)
    } else {
        None
    }
}

/// Whether the bytes start with a well-formed escape: a percent sign and two
/// hexadecimal digits.
pub open spec fn starts_with_escape(bytes: Seq<u8>) -> bool {
    &&& bytes.len() >= 3
    &&& bytes[0] == 0x25
    &&& hex_value(bytes[1]) is Some
    &&& hex_value(bytes[2]) is Some
}

/// The bytes with every well-formed escape replaced by the byte it stands for.
pub open spec fn percent_decoded(bytes: Seq<u8>) -> Seq<u8>
    decreases bytes.len(),
{
    if bytes.len() == 0 {
        seq![]
    } else if starts_with_escape(bytes) {
        seq![(0x10 * hex_value(bytes[1])->0 + hex_value(bytes[2])->0) as u8] + percent_decoded(
            bytes.skip(3),
        )
    } else {
        seq![bytes[0]] + percent_decoded(bytes.skip(1))
    }
}

/// The outcome of `String::from_utf8_lossy` on these bytes.
pub uninterp spec fn lossy_text(bytes: Seq<u8>) -> Seq<char>;

/// Calls `String::from_utf8_lossy`. Claims that the text is a function of the
/// bytes, and that valid UTF-8 comes out as the text it encodes. How invalid
/// bytes are replaced is left unsaid.
#[verifier::external_body]
fn text_from_bytes(bytes: &[u8]) -> (text: String)
    ensures
        text@ == lossy_text(bytes@),
        valid_utf8(bytes@) ==> text@ == decode_utf8(bytes@),
{
    String::from_utf8_lossy(bytes).into_owned()
}

/// Replaces every well-formed escape by the byte it stands for. A percent sign
/// that starts none is a byte like any other.
pub fn percent_decode_bytes(bytes: &[u8]) -> (out: Vec<u8>)
    ensures
        out@ == percent_decoded(bytes@),
{
    let mut out: Vec<u8> = Vec::with_capacity(bytes.len());
    let mut i: usize = 0;
    assert(bytes@.skip(0) == bytes@);
    while i < bytes.len()
        invariant
            i <= bytes@.len(),
            out@ + percent_decoded(bytes@.skip(i as int)) == percent_decoded(bytes@),
        decreases bytes@.len() - i,
    {
        let ghost rest = bytes@.skip(i as int);
        let mut escaped: Option<u8> = None;
        if bytes[i] == 0x25 && bytes.len() - i >= 3 {
            match (hex_value(bytes[i + 1]), hex_value(bytes[i + 2])) {
                (Some(high), Some(low)) => {
                    escaped = Some(high * 0x10 + low);
                },
                _ => {},
            }
        }
        match escaped {
            Some(byte) => {
                assert(starts_with_escape(rest));
                assert(rest.skip(3) == bytes@.skip(i + 3));
                assert(out@ + percent_decoded(rest) == out@.push(byte) + percent_decoded(
                    bytes@.skip(i + 3),
                ));
                out.push(byte);
                i += 3;
            },
            None => {
                assert(!starts_with_escape(rest));
                assert(rest.skip(1) == bytes@.skip(i + 1));
                assert(out@ + percent_decoded(rest) == out@.push(rest[0]) + percent_decoded(
                    bytes@.skip(i + 1),
                ));
                out.push(bytes[i]);
                i += 1;
            },
        }
    }
    assert(out@ + percent_decoded(bytes@.skip(i as int)) == out@);
    out
}

/// Decodes a relative path that was percent-encoded, for instance with `%20`
/// for a space. What is no well-formed escape stays as it is, since it is
/// still part of a valid file name.
pub fn percent_decode(input: &str) -> (path: String)
    ensures
        path@ == lossy_text(percent_decoded(encode_utf8(input@))),
        valid_utf8(percent_decoded(encode_utf8(input@))) ==> path@ == decode_utf8(
            percent_decoded(encode_utf8(input@)),
        ),
        !encode_utf8(input@).contains(0x25) ==> path@ == input@,
{
    let decoded = percent_decode_bytes(input.as_bytes());
    proof {
        if !encode_utf8(input@).contains(0x25) {
            law_without_escapes_bytes_stay(encode_utf8(input@));
            encode_utf8_valid_utf8(input@);
            encode_utf8_decode_utf8(input@);
        }
    }
    text_from_bytes(decoded.as_slice())
}

/// Decoding changes nothing where there is no percent sign.
pub proof fn law_without_escapes_bytes_stay(bytes: Seq<u8>)
    requires
        !bytes.contains(0x25),
    ensures
        percent_decoded(bytes) == bytes,
    decreases bytes.len(),
{
    if bytes.len() > 0 {
        assert(bytes[0] != 0x25);
        let rest = bytes.skip(1);
        assert(!rest.contains(0x25)) by {
            assert forall|j: int| 0 <= j < rest.len() implies rest[j] != 0x25 by {
                assert(rest[j] == bytes[j + 1]);
            }
        }
        law_without_escapes_bytes_stay(rest);
        assert(seq![bytes[0]] + rest == bytes);
    }
}

/// Whether `needle` stands at position `at` of `bytes`.
pub open spec fn stands_at(bytes: Seq<u8>, at: int, needle: Seq<u8>) -> bool {
    &&& 0 <= at
    &&& at + needle.len() <= bytes.len()
    &&& bytes.subrange(at, at + needle.len()) == needle
}

/// Whether `needle` stands anywhere in `bytes`.
pub open spec fn occurs(bytes: Seq<u8>, needle: Seq<u8>) -> bool {
    exists|at: int| #[trigger] stands_at(bytes, at, needle)
}

/// What a URI says about the data of a buffer.
pub enum UriSpec {
    /// A `data:` URI without a semicolon.
    NoSeparator,
    /// A `data:` URI in another encoding than base64.
    NotBase64,
    /// The payload of a base64 `data:` URI.
    Base64(Seq<u8>),
    /// A URI with a scheme.
    Remote,
    /// A relative path, decoded.
    Relative(Seq<char>),
}

/// What the bytes of a URI say. The media type of a `data:` URI ends at the
/// first semicolon and does not matter.
pub open spec fn uri_source(uri: Seq<u8>) -> UriSpec {
    let data = encode_utf8("data:"@);
    let base64 = encode_utf8("base64,"@);
    if stands_at(uri, 0, data) {
        let rest = uri.skip(data.len() as int);
        match rest.index_of_first(0x3b) {
            None => UriSpec::NoSeparator,
            Some(separator) => {
                let payload = rest.skip(separator + 1);
                if stands_at(payload, 0, base64) {
                    UriSpec::Base64(payload.skip(base64.len() as int))
                } else {
                    UriSpec::NotBase64
                }
            },
        }
    } else if occurs(uri, encode_utf8("://"@)) {
        UriSpec::Remote
    } else {
        UriSpec::Relative(lossy_text(percent_decoded(uri)))
    }
}

/// What a URI says about the data of a buffer.
#[derive(Debug)]
pub enum UriSource<'a> {
    NoSeparator,
    NotBase64,
    Base64(&'a [u8]),
    Remote,
    Relative(String),
}

impl<'a> View for UriSource<'a> {
    type V = UriSpec;

    open spec fn view(&self) -> UriSpec {
        match *self {
            UriSource::NoSeparator => UriSpec::NoSeparator,
            UriSource::NotBase64 => UriSpec::NotBase64,
            UriSource::Base64(payload) => UriSpec::Base64(payload@),
            UriSource::Remote => UriSpec::Remote,
            UriSource::Relative(path) => UriSpec::Relative(path@),
        }
    }
}

/// Whether `needle` stands at position `at` of `bytes`.
fn stands(bytes: &[u8], at: usize, needle: &[u8]) -> (b: bool)
    ensures
        b == stands_at(bytes@, at as int, needle@),
{
    let len: usize = bytes.len();
    let width: usize = needle.len();
    if at > len || len - at < width {
        return false;
    }
    let mut i: usize = 0;
    while i < width
        invariant
            i <= width,
            width == needle@.len(),
            at + width <= bytes@.len(),
            bytes@.len() <= usize::MAX,
            forall|j: int| 0 <= j < i ==> bytes@[at + j] == needle@[j],
        decreases width - i,
    {
        if bytes[at + i] != needle[i] {
            assert(bytes@.subrange(at as int, at + width)[i as int] != needle@[i as int]);
            return false;
        }
        i += 1;
    }
    assert(bytes@.subrange(at as int, at + width) == needle@);
    true
}

/// Whether `needle` stands anywhere in `bytes`.
fn contains(bytes: &[u8], needle: &[u8]) -> (b: bool)
    ensures
        b == occurs(bytes@, needle@),
{
    let len: usize = bytes.len();
    let mut at: usize = 0;
    while at < len
        invariant
            at <= len,
            len == bytes@.len(),
            forall|i: int| 0 <= i < at ==> !#[trigger] stands_at(bytes@, i, needle@),
        decreases len - at,
    {
        if stands(bytes, at, needle) {
            return true;
        }
        at += 1;
    }
    stands(bytes, len, needle)
}

/// The position of the first semicolon.
fn find_semicolon(bytes: &[u8]) -> (at: Option<usize>)
    ensures
        match at {
            Some(i) => bytes@.index_of_first(0x3b) == Some(i as int) && i < bytes@.len(),
            None => bytes@.index_of_first(0x3b) is None,
        },
{
    proof {
        bytes@.index_of_first_ensures(0x3b);
    }
    let mut i: usize = 0;
    while i < bytes.len()
        invariant
            i <= bytes@.len(),
            forall|j: int| 0 <= j < i ==> bytes@[j] != 0x3b,
            match bytes@.index_of_first(0x3b) {
                Some(index) => {
                    &&& 0 <= index < bytes@.len()
                    &&& bytes@[index] == 0x3b
                    &&& forall|j: int| 0 <= j < index ==> bytes@[j] != 0x3b
                },
                None => !bytes@.contains(0x3b),
            },
        decreases bytes@.len() - i,
    {
        if bytes[i] == 0x3b {
            assert(bytes@.contains(0x3b));
            return Some(i);
        }
        i += 1;
    }
    None
}

/// Takes a URI apart.
pub fn classify_uri<'a>(uri: &'a str) -> (source: UriSource<'a>)
    ensures
        source@ == uri_source(encode_utf8(uri@)),
{
    let bytes = uri.as_bytes();
    let len: usize = bytes.len();
    let data = "data:".as_bytes();
    if stands(bytes, 0, data) {
        let rest = slice_subrange(bytes, data.len(), len);
        assert(rest@ == bytes@.skip(data@.len() as int));
        let rest_len: usize = rest.len();
        let separator: usize = match find_semicolon(rest) {
            Some(separator) => separator,
            None => {
                return UriSource::NoSeparator;
            },
        };
        let payload = slice_subrange(rest, separator + 1, rest_len);
        assert(payload@ == rest@.skip(separator + 1));
        let payload_len: usize = payload.len();
        let base64 = "base64,".as_bytes();
        if stands(payload, 0, base64) {
            let encoded = slice_subrange(payload, base64.len(), payload_len);
            assert(encoded@ == payload@.skip(base64@.len() as int));
            UriSource::Base64(encoded)
        } else {
            UriSource::NotBase64
        }
    } else if contains(bytes, "://".as_bytes()) {
        UriSource::Remote
    } else {
        UriSource::Relative(percent_decode(uri))
    }
}

/// The outcome of decoding these bytes with the standard base64 engine: the
/// data, or the text of the error.
pub uninterp spec fn base64_decoded(payload: Seq<u8>) -> Result<Seq<u8>, Seq<char>>;

/// Calls `base64::Engine::decode` of `base64::engine::general_purpose::STANDARD`.
/// Claims that the outcome is a function of the payload.
#[verifier::external_body]
fn decode_base64(payload: &[u8]) -> (r: Result<Vec<u8>, String>)
    ensures
        match r {
            Ok(data) => base64_decoded(payload@) == Ok::<Seq<u8>, Seq<char>>(data@),
            Err(e) => base64_decoded(payload@) == Err::<Seq<u8>, Seq<char>>(e@),
        },
{
    base64::Engine::decode(&base64::engine::general_purpose::STANDARD, payload).map_err(
        |e| e.to_string(),
    )
}

/// Where the data of a buffer is to be had.
pub enum BufferOrigin {
    /// Here it is.
    Data(Seq<u8>),
    /// In the file with this path relative to the document.
    File(Seq<char>),
    /// Nowhere, for this reason.
    Nowhere(Seq<char>),
}

/// Where the data of a buffer is to be had, given its URI and the binary chunk
/// of its own file.
pub open spec fn buffer_origin(uri: Option<Seq<char>>, blob: Option<Seq<u8>>) -> BufferOrigin {
    match uri {
        None => match blob {
            Some(bytes) => BufferOrigin::Data(bytes),
            None => BufferOrigin::Nowhere(
                "buffer has no URI (expects the GLB BIN chunk), but this file has no embedded binary chunk"@,
            ),
        },
        Some(uri) => match uri_source(encode_utf8(uri)) {
            UriSpec::NoSeparator => BufferOrigin::Nowhere(
                "malformed data URI (no ';' separator): '"@ + uri + "'"@,
            ),
            UriSpec::NotBase64 => BufferOrigin::Nowhere(
                "data URI is not base64-encoded (only base64 data URIs are supported)"@,
            ),
            UriSpec::Base64(payload) => match base64_decoded(payload) {
                Ok(data) => BufferOrigin::Data(data),
                Err(e) => BufferOrigin::Nowhere("invalid base64 in data URI: "@ + e),
            },
            UriSpec::Remote => BufferOrigin::Nowhere(
                "unsupported remote URI scheme (only relative file paths and base64 data URIs are supported): '"@
                    + uri + "'"@,
            ),
            UriSpec::Relative(path) => BufferOrigin::File(path),
        },
    }
}

/// Where the data of a buffer is to be had.
#[derive(Debug)]
pub enum BufferSource {
    Data(Vec<u8>),
    File(String),
    Nowhere(String),
}

impl View for BufferSource {
    type V = BufferOrigin;

    open spec fn view(&self) -> BufferOrigin {
        match *self {
            BufferSource::Data(bytes) => BufferOrigin::Data(bytes@),
            BufferSource::File(path) => BufferOrigin::File(path@),
            BufferSource::Nowhere(reason) => BufferOrigin::Nowhere(reason@),
        }
    }
}

/// Takes the outcome of decoding a base64 payload.
pub fn decoded_buffer(outcome: Result<Vec<u8>, String>) -> (source: BufferSource)
    ensures
        source@ == match outcome {
            Ok(data) => BufferOrigin::Data(data@),
            Err(e) => BufferOrigin::Nowhere("invalid base64 in data URI: "@ + e@),
        },
{
    match outcome {
        Ok(data) => BufferSource::Data(data),
        Err(e) => {
            let mut reason = "invalid base64 in data URI: ".to_string();
            reason.append(e.as_str());
            BufferSource::Nowhere(reason)
        },
    }
}

/// Finds out where the data of a buffer is to be had, and gives it where no
/// file has to be read for it.
pub fn locate_buffer(uri: Option<&str>, blob: Option<&[u8]>) -> (source: BufferSource)
    ensures
        source@ == buffer_origin(
            match uri {
                Some(text) => Some(text@),
                None => None,
            },
            match blob {
                Some(bytes) => Some(bytes@),
                None => None,
            },
        ),
{
    let uri = match uri {
        Some(uri) => uri,
        None => {
            return match blob {
                Some(bytes) => BufferSource::Data(slice_to_vec(bytes)),
                None => BufferSource::Nowhere(
                    "buffer has no URI (expects the GLB BIN chunk), but this file has no embedded binary chunk".to_string(),
                ),
            };
        },
    };
    match classify_uri(uri) {
        UriSource::NoSeparator => {
            let mut reason = "malformed data URI (no ';' separator): '".to_string();
            reason.append(uri);
            reason.append("'");
            BufferSource::Nowhere(reason)
        },
        UriSource::NotBase64 => BufferSource::Nowhere(
            "data URI is not base64-encoded (only base64 data URIs are supported)".to_string(),
        ),
        UriSource::Base64(payload) => decoded_buffer(decode_base64(payload)),
        UriSource::Remote => {
            let mut reason =
                "unsupported remote URI scheme (only relative file paths and base64 data URIs are supported): '".to_string();
            reason.append(uri);
            reason.append("'");
            BufferSource::Nowhere(reason)
        },
        UriSource::Relative(path) => BufferSource::File(path),
    }
}

} // verus!
