//! Base64, and the data URLs built on it.

use vstd::prelude::*;

verus! {

/// The most bytes that are encoded in one go: with this many, the encoded
/// text still fits any machine's memory addressing.
pub const MAX_ENCODABLE_BYTES: usize = 0x4000_0000;

/// The character that stands for six bits in the standard alphabet.
pub open spec fn base64_char(v: u8) -> char {
    if v < 26 {
        (('A' as u8) + v) as char
    } else if v < 52 {
        (('a' as u8) + (v - 26) as u8) as char
    } else if v < 62 {
        (('0' as u8) + (v - 52) as u8) as char
    } else if v == 62 {
        '+'
    } else {
        '/'
    }
}

/// The standard base64 text of `bytes`, with padding: each three bytes give
/// four characters, and one or two bytes left over give two or three
/// characters and `=` signs up to four.
pub open spec fn base64_text(bytes: Seq<u8>) -> Seq<char>
    decreases bytes.len(),
{
    if bytes.len() == 0 {
        Seq::empty()
    } else if bytes.len() == 1 {
        seq![base64_char(bytes[0] >> 2), base64_char((bytes[0] & 3) << 4), '=', '=']
    } else if bytes.len() == 2 {
        seq![
            base64_char(bytes[0] >> 2),
            base64_char(((bytes[0] & 3) << 4) | (bytes[1] >> 4)),
            base64_char((bytes[1] & 15) << 2),
            '=',
        ]
    } else {
        seq![
            base64_char(bytes[0] >> 2),
            base64_char(((bytes[0] & 3) << 4) | (bytes[1] >> 4)),
            base64_char(((bytes[1] & 15) << 2) | (bytes[2] >> 6)),
            base64_char(bytes[2] & 63),
        ] + base64_text(bytes.skip(3))
    }
}

/// Whether `text` is the base64 text of some bytes: it is in the standard
/// alphabet, padded to a multiple of four, with no bits left over.
pub open spec fn is_base64(text: Seq<char>) -> bool {
    exists|bytes: Seq<u8>| #[trigger] base64_text(bytes) == text
}

/// The bytes whose base64 text is `text`, if there are any. They are the
/// only ones: see [`lemma_base64_text_is_injective`].
pub open spec fn base64_bytes(text: Seq<char>) -> Option<Seq<u8>> {
    if is_base64(text) {
        Some(choose|bytes: Seq<u8>| #[trigger] base64_text(bytes) == text)
    } else {
        None
    }
}

/// Six bits go to a character other than the padding sign, and different
/// bits to different characters.
proof fn lemma_chars_differ(v: u8, w: u8)
    requires
        v < 64,
        w < 64,
    ensures
        base64_char(v) != '=',
        base64_char(v) == base64_char(w) ==> v == w,
{
}

/// The base64 text of `bytes` has four characters for every three bytes,
/// the last three counted in full.
pub proof fn lemma_base64_text_len(bytes: Seq<u8>)
    ensures
        base64_text(bytes).len() == 4 * ((bytes.len() + 2) / 3),
    decreases bytes.len(),
{
    if bytes.len() >= 3 {
        lemma_base64_text_len(bytes.skip(3));
    }
}

/// What is cut from one, two or three bytes is six bits each time.
proof fn lemma_sextets_are_small(x: u8, y: u8, z: u8)
    ensures
        x >> 2 < 64,
        (x & 3) << 4 < 64,
        ((x & 3) << 4) | (y >> 4) < 64,
        (y & 15) << 2 < 64,
        ((y & 15) << 2) | (z >> 6) < 64,
        z & 63 < 64,
{
    assert(x >> 2 < 64) by (bit_vector);
    assert((x & 3) << 4 < 64) by (bit_vector);
    assert(((x & 3) << 4) | (y >> 4) < 64) by (bit_vector);
    assert((y & 15) << 2 < 64) by (bit_vector);
    assert(((y & 15) << 2) | (z >> 6) < 64) by (bit_vector);
    assert(z & 63 < 64) by (bit_vector);
}

/// Bytes are told by the six-bit pieces cut from them.
proof fn lemma_sextets_tell_bytes(x: u8, y: u8, z: u8, p: u8, q: u8, r: u8)
    ensures
        x >> 2 == p >> 2 && (x & 3) << 4 == (p & 3) << 4 ==> x == p,
        x >> 2 == p >> 2 && ((x & 3) << 4) | (y >> 4) == ((p & 3) << 4) | (q >> 4) && (y & 15) << 2
            == (q & 15) << 2 ==> x == p && y == q,
        x >> 2 == p >> 2 && ((x & 3) << 4) | (y >> 4) == ((p & 3) << 4) | (q >> 4) && ((y & 15)
            << 2) | (z >> 6) == ((q & 15) << 2) | (r >> 6) && z & 63 == r & 63 ==> x == p && y == q
            && z == r,
{
    assert(x >> 2 == p >> 2 && (x & 3) << 4 == (p & 3) << 4 ==> x == p) by (bit_vector);
    assert(x >> 2 == p >> 2 && ((x & 3) << 4) | (y >> 4) == ((p & 3) << 4) | (q >> 4) && (y & 15)
        << 2 == (q & 15) << 2 ==> x == p && y == q) by (bit_vector);
    assert(x >> 2 == p >> 2 && ((x & 3) << 4) | (y >> 4) == ((p & 3) << 4) | (q >> 4) && ((y & 15)
        << 2) | (z >> 6) == ((q & 15) << 2) | (r >> 6) && z & 63 == r & 63 ==> x == p && y == q
        && z == r) by (bit_vector);
}

/// The first four characters of a base64 text: none is the padding sign
/// where there are three bytes or more; the last is where there are two, and
/// the last two are where there is one.
proof fn lemma_first_quad(bytes: Seq<u8>)
    requires
        bytes.len() > 0,
    ensures
        base64_text(bytes).len() >= 4,
        base64_text(bytes)[0] != '=',
        base64_text(bytes)[1] != '=',
        bytes.len() == 1 ==> base64_text(bytes)[2] == '=' && base64_text(bytes)[3] == '=',
        bytes.len() == 2 ==> base64_text(bytes)[2] != '=' && base64_text(bytes)[3] == '=',
        bytes.len() >= 3 ==> base64_text(bytes)[2] != '=' && base64_text(bytes)[3] != '=',
        bytes.len() >= 3 ==> base64_text(bytes).skip(4) == base64_text(bytes.skip(3)),
{
    let x = bytes[0];
    let y = if bytes.len() > 1 { bytes[1] } else { 0 };
    let z = if bytes.len() > 2 { bytes[2] } else { 0 };
    lemma_sextets_are_small(x, y, z);
    lemma_chars_differ(x >> 2, 0);
    lemma_chars_differ((x & 3) << 4, 0);
    lemma_chars_differ(((x & 3) << 4) | (y >> 4), 0);
    lemma_chars_differ((y & 15) << 2, 0);
    lemma_chars_differ(((y & 15) << 2) | (z >> 6), 0);
    lemma_chars_differ(z & 63, 0);
    if bytes.len() >= 3 {
        assert(base64_text(bytes).skip(4) =~= base64_text(bytes.skip(3)));
    }
}

/// Different bytes have different base64 texts.
pub proof fn lemma_base64_text_is_injective(a: Seq<u8>, b: Seq<u8>)
    requires
        base64_text(a) == base64_text(b),
    ensures
        a == b,
    decreases a.len(),
{
    lemma_base64_text_len(a);
    lemma_base64_text_len(b);
    if a.len() == 0 || b.len() == 0 {
        assert(a =~= b);
    } else {
        lemma_first_quad(a);
        lemma_first_quad(b);
        let text = base64_text(a);
        let x = a[0];
        let y = if a.len() > 1 { a[1] } else { 0 };
        let z = if a.len() > 2 { a[2] } else { 0 };
        let p = b[0];
        let q = if b.len() > 1 { b[1] } else { 0 };
        let r = if b.len() > 2 { b[2] } else { 0 };
        lemma_sextets_are_small(x, y, z);
        lemma_sextets_are_small(p, q, r);
        lemma_sextets_tell_bytes(x, y, z, p, q, r);
        lemma_chars_differ(x >> 2, p >> 2);
        assert(text[0] == base64_text(b)[0]);
        assert(text[1] == base64_text(b)[1]);
        assert(text[2] == base64_text(b)[2]);
        assert(text[3] == base64_text(b)[3]);
        if a.len() == 1 {
            lemma_chars_differ((x & 3) << 4, (p & 3) << 4);
            assert(b.len() == 1);
            assert(a =~= b);
        } else if a.len() == 2 {
            lemma_chars_differ(((x & 3) << 4) | (y >> 4), ((p & 3) << 4) | (q >> 4));
            lemma_chars_differ((y & 15) << 2, (q & 15) << 2);
            assert(b.len() == 2);
            assert(a =~= b);
        } else {
            lemma_chars_differ(((x & 3) << 4) | (y >> 4), ((p & 3) << 4) | (q >> 4));
            lemma_chars_differ(((y & 15) << 2) | (z >> 6), ((q & 15) << 2) | (r >> 6));
            lemma_chars_differ(z & 63, r & 63);
            assert(b.len() >= 3);
            lemma_base64_text_is_injective(a.skip(3), b.skip(3));
            assert(a =~= seq![x, y, z] + a.skip(3));
            assert(b =~= seq![p, q, r] + b.skip(3));
        }
    }
}

/// Decoding undoes encoding: the bytes of the base64 text of `bytes` are
/// `bytes`.
pub proof fn lemma_base64_round_trip(bytes: Seq<u8>)
    ensures
        base64_bytes(base64_text(bytes)) == Some(bytes),
{
    let text = base64_text(bytes);
    assert(is_base64(text));
    lemma_base64_text_is_injective(choose|b: Seq<u8>| #[trigger] base64_text(b) == text, bytes);
}

/// The error of `base64`'s decoder.
#[verifier::external_type_specification]
#[verifier::external_body]
pub struct ExDecodeError(base64::DecodeError);

/// `Engine::encode` of `base64`, on the `STANDARD` engine: the bytes as
/// padded base64 text in the standard alphabet.
#[verifier::external_body]
fn standard_encode(bytes: &[u8]) -> (text: String)
    requires
        bytes@.len() <= MAX_ENCODABLE_BYTES,
    ensures
        text@ == base64_text(bytes@),
{
    base64::Engine::encode(&base64::engine::general_purpose::STANDARD, bytes)
}

/// `Engine::decode` of `base64`, on the `STANDARD` engine, which asks for
/// the standard alphabet and canonical padding and refuses bits left over:
/// it undoes `Engine::encode`. What it returns has the text as its base64
/// text, and it returns an error for a text that no bytes have.
#[verifier::external_body]
fn standard_decode(text: &str) -> (bytes: Result<Vec<u8>, base64::DecodeError>)
    ensures
        match bytes {
            Ok(b) => base64_text(b@) == text@,
            Err(_) => !is_base64(text@),
        },
{
    base64::Engine::decode(&base64::engine::general_purpose::STANDARD, text)
}

/// `Display` of `base64::DecodeError`: the decoder's error as text. Nothing
/// is claimed of the wording.
#[verifier::external_body]
fn decode_error_text(e: &base64::DecodeError) -> (text: String) {
    e.to_string()
}

/// The bytes as base64 text, or `None` where they are too many to encode.
pub fn encode_base64(bytes: &[u8]) -> (text: Option<String>)
    ensures
        match text {
            Some(t) => bytes@.len() <= MAX_ENCODABLE_BYTES && t@ == base64_text(bytes@),
            None => bytes@.len() > MAX_ENCODABLE_BYTES,
        },
{
    if bytes.len() <= MAX_ENCODABLE_BYTES {
        Some(standard_encode(bytes))
    } else {
        None
    }
}

/// The bytes that the base64 text stands for, or the decoder's complaint.
pub fn decode_base64(text: &str) -> (bytes: Result<Vec<u8>, String>)
    ensures
        match bytes {
            Ok(b) => base64_bytes(text@) == Some(b@),
            Err(_) => base64_bytes(text@) is None,
        },
{
    match standard_decode(text) {
        Ok(b) => {
            proof {
                lemma_base64_round_trip(b@);
            }
            Ok(b)
        },
        Err(e) => Err(decode_error_text(&e)),
    }
}

/// The data URL of a body of the given MIME type, the body already in
/// base64.
pub open spec fn data_url_text(mime: Seq<char>, body: Seq<char>) -> Seq<char> {
    "data:"@ + mime + ";base64,"@ + body
}

/// The data URL that holds `bytes` as a body of type `mime`, or `None` where
/// the bytes are too many to encode.
pub fn data_url(mime: &str, bytes: &[u8]) -> (url: Option<String>)
    ensures
        match url {
            Some(u) => bytes@.len() <= MAX_ENCODABLE_BYTES && u@ == data_url_text(
                mime@,
                base64_text(bytes@),
            ),
            None => bytes@.len() > MAX_ENCODABLE_BYTES,
        },
{
    match encode_base64(bytes) {
        Some(body) => {
            let mut url = "data:".to_string();
            url.append(mime);
            url.append(";base64,");
            url.append(body.as_str());
            Some(url)
        },
        None => None,
    }
}

/// What stands behind the first comma of a data URL: its body. `None` for a
/// text without a comma.
pub open spec fn data_url_body(url: Seq<char>) -> Option<Seq<char>> {
    if crate::text::first_at(url, ',') < 0 {
        None
    } else {
        Some(url.skip(crate::text::first_at(url, ',') + 1))
    }
}

/// The body of a data URL.
pub fn body_of_data_url(url: &str) -> (body: Option<String>)
    ensures
        crate::text::opt_string_view(body) == data_url_body(url@),
{
    let chars = crate::text::chars_of(url);
    match crate::text::find_first(&chars, ',') {
        Some(comma) => {
            let body = crate::text::string_of_range(&chars, comma + 1, chars.len());
            assert(chars@.subrange(comma + 1, chars.len() as int) == url@.skip(comma + 1));
            Some(body)
        },
        None => None,
    }
}

} // verus!
