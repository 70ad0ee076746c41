//! The cryptographic and encoding primitives the library calls: SHA-256,
//! the ChaCha20 keystream, standard base64, JSON fields, random nonces, lossy
//! UTF-8 decoding and wiping buffers; and lowercase hexadecimal text.

use vstd::prelude::*;
use crate::text::decimal_text;

verus! {

/// The SHA-256 digest of some bytes.
pub uninterp spec fn sha256_digest(data: Seq<u8>) -> Seq<u8>;

/// `sha2::Sha256::digest`: the 32-byte SHA-256 digest of the bytes (named, not
/// stated).
#[verifier::external_body]
pub(crate) fn sha256_bytes(data: &[u8]) -> (r: [u8; 32])
    ensures
        r@ == sha256_digest(data@),
{
    <sha2::Sha256 as sha2::Digest>::digest(data).into()
}

/// The lowercase hexadecimal digit of a value below 16.
pub open spec fn hex_digit(v: u8) -> char {
    if v < 10 {
        (('0' as u8) + v) as char
    } else {
        (('a' as u8) + v - 10) as char
    }
}

/// Bytes written as two lowercase hexadecimal digits each, as `{:x}` writes a digest.
pub open spec fn hex_text(bytes: Seq<u8>) -> Seq<char>
    decreases bytes.len(),
{
    if bytes.len() == 0 {
        Seq::empty()
    } else {
        let b = bytes[bytes.len() - 1];
        hex_text(bytes.drop_last()) + seq![hex_digit(b / 16), hex_digit(b % 16)]
    }
}

proof fn lemma_hex_text_len(bytes: Seq<u8>)
    ensures
        hex_text(bytes).len() == 2 * bytes.len(),
    decreases bytes.len(),
{
    if bytes.len() > 0 {
        lemma_hex_text_len(bytes.drop_last());
    }
}

fn hex_digit_exec(v: u8) -> (r: char)
    requires
        v < 16,
    ensures
        r == hex_digit(v),
{
    if v < 10 {
        (48u8 + v) as char
    } else {
        (97u8 + v - 10) as char
    }
}

/// The bytes in lowercase hexadecimal.
pub fn to_lower_hex(bytes: &[u8]) -> (r: String)
    ensures
        r@ == hex_text(bytes@),
        r@.len() == 2 * bytes@.len(),
{
    let mut out: Vec<char> = Vec::new();
    let mut i: usize = 0;
    while i < bytes.len()
        invariant
            i <= bytes@.len(),
            out@ == hex_text(bytes@.take(i as int)),
        decreases bytes@.len() - i,
    {
        proof {
            assert(bytes@.take(i as int + 1).drop_last() =~= bytes@.take(i as int));
        }
        let b = bytes[i];
        out.push(hex_digit_exec(b / 16));
        out.push(hex_digit_exec(b % 16));
        i += 1;
        assert(out@ =~= hex_text(bytes@.take(i as int)));
    }
    assert(bytes@.take(bytes@.len() as int) =~= bytes@);
    proof {
        lemma_hex_text_len(bytes@);
    }
    crate::text::string_from_chars(out.as_slice())
}

/// The ChaCha20 keystream for a key and nonce, `len` bytes long.
pub uninterp spec fn chacha20_keystream(key: Seq<u8>, nonce: Seq<u8>, len: nat) -> Seq<u8>;

/// The largest input one ChaCha20 cipher takes from its start: its 32-bit block
/// counter allows 2^32 - 1 blocks of 64 bytes.
pub open spec fn chacha20_limit() -> nat {
    0x3F_FFFF_FFC0
}

/// `chacha20::ChaCha20::new(key, nonce)` then `apply_keystream`: XORs the buffer
/// with the keystream of the key and nonce, from its start (named, not stated).
/// The cipher panics past the end of its keystream, so longer buffers are excluded.
#[verifier::external_body]
pub(crate) fn chacha20_apply(key: &[u8; 32], nonce: &[u8; 12], data: &mut Vec<u8>)
    requires
        old(data)@.len() <= chacha20_limit(),
    ensures
        final(data)@.len() == old(data)@.len(),
        forall|i: int|
            0 <= i < old(data)@.len() ==> #[trigger] final(data)@[i] == old(data)@[i] ^ chacha20_keystream(
                key@,
                nonce@,
                old(data)@.len(),
            )[i],
{
    let mut cipher = <chacha20::ChaCha20 as chacha20::cipher::KeyIvInit>::new(key.into(), nonce.into());
    chacha20::cipher::StreamCipher::apply_keystream(&mut cipher, data.as_mut_slice());
}

/// The character of the standard base64 alphabet (RFC 4648) for a six-bit value.
pub open spec fn base64_digit(v: int) -> char {
    if v < 26 {
        (65 + v) as char
    } else if v < 52 {
        (97 + v - 26) as char
    } else if v < 62 {
        (48 + v - 52) as char
    } else if v == 62 {
        '+'
    } else {
        '/'
    }
}

/// The standard base64 text (RFC 4648 alphabet, with padding) of some bytes: each
/// group of three bytes gives four characters; a last group of one or two bytes
/// gives two or three characters and `=` up to four.
pub open spec fn base64_text(data: Seq<u8>) -> Seq<char>
    decreases data.len(),
{
    if data.len() == 0 {
        Seq::empty()
    } else if data.len() == 1 {
        let a = data[0] as int;
        seq![base64_digit(a / 4), base64_digit((a % 4) * 16), '=', '=']
    } else if data.len() == 2 {
        let a = data[0] as int;
        let b = data[1] as int;
        seq![base64_digit(a / 4), base64_digit((a % 4) * 16 + b / 16), base64_digit((b % 16) * 4), '=']
    } else {
        let a = data[0] as int;
        let b = data[1] as int;
        let c = data[2] as int;
        seq![
            base64_digit(a / 4),
            base64_digit((a % 4) * 16 + b / 16),
            base64_digit((b % 16) * 4 + c / 64),
            base64_digit(c % 64),
        ] + base64_text(data.subrange(3, data.len() as int))
    }
}

/// A character of the standard base64 alphabet, or the padding `=`.
pub open spec fn is_base64_char(c: char) -> bool {
    ('A' <= c && c <= 'Z') || ('a' <= c && c <= 'z') || ('0' <= c && c <= '9') || c == '+' || c == '/' || c == '='
}

/// The bytes the standard base64 decoder gives for a text, if it accepts it.
pub uninterp spec fn base64_decoded(text: Seq<char>) -> Option<Seq<u8>>;

/// `base64::engine::general_purpose::STANDARD.encode`: the padded standard encoding
/// (`base64_text`): four alphabet characters for every three bytes or part of them;
/// no other bytes have the same encoding, and the decoder gives the bytes back.
#[verifier::external_body]
pub(crate) fn base64_encode(data: &[u8]) -> (r: String)
    ensures
        r@ == base64_text(data@),
        base64_decoded(r@) == Some(data@),
        forall|y: Seq<u8>| #[trigger] base64_text(y) == r@ ==> y == data@,
        r@.len() == 4 * ((data@.len() + 2) / 3),
        forall|i: int| 0 <= i < r@.len() ==> is_base64_char(#[trigger] r@[i]),
{
    base64::Engine::encode(&base64::engine::general_purpose::STANDARD, data)
}

/// `base64::engine::general_purpose::STANDARD.decode` (named): it accepts exactly the
/// canonical padded encodings (trailing bits and non-canonical padding are refused);
/// the bytes it gives back are the only ones with that encoding, and no longer than
/// the text.
#[verifier::external_body]
pub(crate) fn base64_decode(text: &str) -> (r: Option<Vec<u8>>)
    ensures
        match r {
            Some(v) => base64_decoded(text@) == Some(v@),
            None => base64_decoded(text@) is None,
        },
        r matches Some(v) ==> base64_text(v@) == text@ && v@.len() <= text@.len(),
        r matches Some(v) ==> forall|y: Seq<u8>| #[trigger] base64_text(y) == text@ ==> y == v@,
        r is None ==> forall|x: Seq<u8>| #[trigger] base64_text(x) != text@,
{
    base64::Engine::decode(&base64::engine::general_purpose::STANDARD, text).ok()
}

/// The string field `key` of the JSON object that `text` holds, if it parses as
/// an object with such a field.
pub uninterp spec fn json_string_field(text: Seq<char>, key: Seq<char>) -> Option<Seq<char>>;

/// A value of a JSON object's field.
#[derive(Debug)]
pub enum JsonValue {
    Text(String),
    Number(u64),
}

/// The mathematical value of a JSON field's value.
pub ghost enum JsonV {
    Text(Seq<char>),
    Number(u64),
}

impl View for JsonValue {
    type V = JsonV;

    open spec fn view(&self) -> JsonV {
        match self {
            JsonValue::Text(s) => JsonV::Text(s@),
            JsonValue::Number(n) => JsonV::Number(*n),
        }
    }
}

/// The fields as keys with the values of their values.
pub open spec fn json_fields_view(fields: Seq<(String, JsonValue)>) -> Seq<(Seq<char>, JsonV)> {
    fields.map_values(|f: (String, JsonValue)| (f.0@, f.1@))
}

/// A text JSON writes between quotes as it is: no quote, backslash or control
/// character.
pub open spec fn json_plain(s: Seq<char>) -> bool {
    forall|i: int| 0 <= i < s.len() ==> (#[trigger] s[i]) != '"' && s[i] != '\\' && (s[i] as u32) >= 0x20
}

/// `a` comes strictly before `b` in code point order (the order of JSON object keys).
pub open spec fn text_before(a: Seq<char>, b: Seq<char>) -> bool {
    exists|k: int|
        0 <= k <= a.len() && k <= b.len() && #[trigger] a.subrange(0, k) == b.subrange(0, k) && ((k == a.len() && k
            < b.len()) || (k < a.len() && k < b.len() && (a[k] as u32) < (b[k] as u32)))
}

/// Fields that serde_json writes in the order given: keys in strictly increasing
/// order, keys and text values in need of no escaping.
pub open spec fn json_fields_ok(fs: Seq<(Seq<char>, JsonV)>) -> bool {
    &&& forall|i: int| 0 <= i < fs.len() - 1 ==> text_before(#[trigger] fs[i].0, fs[i + 1].0)
    &&& forall|i: int|
        0 <= i < fs.len() ==> json_plain(#[trigger] fs[i].0) && (fs[i].1 matches JsonV::Text(t) ==> json_plain(t))
}

/// How a field's value is written.
pub open spec fn json_value_text(v: JsonV) -> Seq<char> {
    match v {
        JsonV::Text(t) => "\""@ + t + "\""@,
        JsonV::Number(n) => decimal_text(n as nat),
    }
}

/// The fields written one after another, separated by commas.
pub open spec fn json_members(fs: Seq<(Seq<char>, JsonV)>) -> Seq<char>
    decreases fs.len(),
{
    if fs.len() == 0 {
        Seq::empty()
    } else {
        let f = fs.last();
        let member = "\""@ + f.0 + "\":"@ + json_value_text(f.1);
        if fs.len() == 1 {
            member
        } else {
            json_members(fs.drop_last()) + ","@ + member
        }
    }
}

/// The compact JSON text of an object with these fields.
pub open spec fn json_object_text(fs: Seq<(Seq<char>, JsonV)>) -> Seq<char> {
    "{"@ + json_members(fs) + "}"@
}

/// `serde_json::Value::Object(map).to_string()` of a map holding the fields:
/// serde_json's map keeps keys sorted, so fields given in key order are written in
/// that order, compactly; a reader of the text finds each text field again.
#[verifier::external_body]
pub(crate) fn json_object(fields: &[(String, JsonValue)]) -> (r: String)
    requires
        json_fields_ok(json_fields_view(fields@)),
    ensures
        r@ == json_object_text(json_fields_view(fields@)),
        forall|i: int|
            0 <= i < fields@.len() && (#[trigger] json_fields_view(fields@)[i]).1 is Text ==> json_string_field(
                r@, json_fields_view(fields@)[i].0) == Some(json_fields_view(fields@)[i].1->Text_0),
{
    let mut m = serde_json::Map::new();
    for (k, v) in fields.iter() {
        let value = match v {
            JsonValue::Text(t) => serde_json::Value::from(t.as_str()),
            JsonValue::Number(n) => serde_json::Value::from(*n),
        };
        m.insert(k.clone(), value);
    }
    serde_json::Value::Object(m).to_string()
}

/// The text is the compact JSON object of fields that serde_json writes as given,
/// one of which is the text field `key` with value `t`.
pub open spec fn json_written_field(text: Seq<char>, key: Seq<char>, t: Seq<char>) -> bool {
    exists|fs: Seq<(Seq<char>, JsonV)>, i: int|
        text == #[trigger] json_object_text(fs) && json_fields_ok(fs) && 0 <= i < fs.len() && #[trigger] fs[i] == (
        key,
        JsonV::Text(t),
    )
}

/// `serde_json::from_str::<Value>` then `get(key)` and `as_str`: the field when the
/// text parses as an object whose field `key` is a string (named, not stated); the
/// field is no longer than the text, and a text written by `json_object` gives back
/// its text fields.
#[verifier::external_body]
pub(crate) fn json_str_field(text: &str, key: &str) -> (r: Option<String>)
    ensures
        match r {
            Some(s) => json_string_field(text@, key@) == Some(s@),
            None => json_string_field(text@, key@) is None,
        },
        r matches Some(s) ==> s@.len() <= text@.len(),
        forall|t: Seq<char>| #[trigger] json_written_field(text@, key@, t) ==> r is Some && r->0@ == t,
{
    let value: serde_json::Value = serde_json::from_str(text).ok()?;
    value.get(key).and_then(|v| v.as_str()).map(|s| s.to_string())
}

/// `rand::rngs::OsRng.fill_bytes`: twelve bytes from the operating system's
/// random source; nothing is promised of them.
#[verifier::external_body]
pub(crate) fn random_nonce() -> (r: [u8; 12]) {
    let mut nonce = [0u8; 12];
    rand::RngCore::fill_bytes(&mut rand::rngs::OsRng, &mut nonce);
    nonce
}

/// The text `String::from_utf8_lossy` makes of some bytes.
pub uninterp spec fn utf8_lossy_text(bytes: Seq<u8>) -> Seq<char>;

/// `String::from_utf8_lossy`: the bytes as text, invalid sequences replaced (named,
/// not stated); valid UTF-8 gives back the text it encodes, and bytes give at least
/// one character (each invalid sequence becomes U+FFFD).
#[verifier::external_body]
pub(crate) fn utf8_lossy(bytes: &[u8]) -> (r: String)
    ensures
        r@ == utf8_lossy_text(bytes@),
        bytes@.len() > 0 ==> r@.len() > 0,
        forall|s: Seq<char>| bytes@ == #[trigger] vstd::utf8::encode_utf8(s) ==> r@ == s,
{
    String::from_utf8_lossy(bytes).to_string()
}

/// `zeroize` on a byte vector: its contents and spare capacity are overwritten with
/// zeros and it is left empty.
#[verifier::external_body]
pub(crate) fn wipe_bytes(v: &mut Vec<u8>)
    ensures
        final(v)@.len() == 0,
{
    zeroize::Zeroize::zeroize(v);
}

} // verus!
