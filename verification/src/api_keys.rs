//! Provider API keys sealed with ChaCha20 under a key derived from the user, the
//! host and a per-installation salt, and stored as JSON entries holding the base64
//! of nonce and ciphertext. Reading and writing the key store is left to the caller.

use vstd::prelude::*;
use vstd::utf8::encode_utf8;
use crate::crypto::{
    base64_decode, base64_decoded, base64_encode, base64_text, chacha20_apply, chacha20_keystream, chacha20_limit,
    is_base64_char, json_fields_ok, json_fields_view, json_object, json_object_text, json_plain, json_str_field, json_written_field,
    json_string_field, sha256_bytes, sha256_digest, text_before, JsonV, JsonValue, random_nonce, utf8_lossy, utf8_lossy_text, wipe_bytes,
};
use crate::text::{is_unicode_whitespace, owned, same_text, spec_is_unicode_whitespace};

verus! {

/// The constant mixed into the key derivation to keep it apart from others.
pub open spec fn static_salt() -> Seq<u8> {
    encode_utf8("AEONMI_API_KEY_SALT_v2"@)
}

/// SHA-256 of the user name, the host name, a static salt and the installation
/// salt, one after the other.
pub open spec fn salted_digest(user: Seq<char>, host: Seq<char>, static_salt: Seq<u8>, install_salt: Seq<u8>) -> Seq<u8> {
    sha256_digest(encode_utf8(user) + encode_utf8(host) + static_salt + install_salt)
}

/// The key that seals provider keys.
pub open spec fn derived_key(user: Seq<char>, host: Seq<char>, install_salt: Seq<u8>) -> Seq<u8> {
    salted_digest(user, host, static_salt(), install_salt)
}

fn push_slice(out: &mut Vec<u8>, b: &[u8])
    ensures
        final(out)@ == old(out)@ + b@,
{
    let mut i: usize = 0;
    while i < b.len()
        invariant
            i <= b@.len(),
            out@ == old(out)@ + b@.subrange(0, i as int),
        decreases b@.len() - i,
    {
        out.push(b[i]);
        i += 1;
        assert(out@ =~= old(out)@ + b@.subrange(0, i as int));
    }
    assert(b@.subrange(0, b@.len() as int) =~= b@);
}

/// The SHA-256 key derivation.
pub fn fallback_sha256(user: &str, host: &str, static_salt: &[u8], install_salt: &[u8; 32]) -> (r: [u8; 32])
    ensures
        r@ == salted_digest(user@, host@, static_salt@, install_salt@),
{
    let mut data: Vec<u8> = Vec::new();
    push_slice(&mut data, user.as_bytes());
    push_slice(&mut data, host.as_bytes());
    push_slice(&mut data, static_salt);
    push_slice(&mut data, install_salt);
    sha256_bytes(data.as_slice())
}

/// The key that seals provider keys, for a user on a host with an installation
/// salt.
pub fn key_material(user: &str, host: &str, install_salt: &[u8; 32]) -> (r: [u8; 32])
    ensures
        r@ == derived_key(user@, host@, install_salt@),
{
    let salt = "AEONMI_API_KEY_SALT_v2";
    fallback_sha256(user, host, salt.as_bytes(), install_salt)
}

/// Bytes XORed with a keystream.
pub open spec fn xor_stream(data: Seq<u8>, ks: Seq<u8>) -> Seq<u8> {
    Seq::new(data.len(), |i: int| data[i] ^ ks[i])
}

/// ChaCha20 under a key and nonce, applied to some bytes.
pub open spec fn chacha20(key: Seq<u8>, nonce: Seq<u8>, data: Seq<u8>) -> Seq<u8> {
    xor_stream(data, chacha20_keystream(key, nonce, data.len()))
}

/// The stored bytes of a sealed key: the nonce, then the ciphertext.
pub open spec fn sealed_bytes(key: Seq<u8>, nonce: Seq<u8>, plain: Seq<char>) -> Seq<u8> {
    nonce + chacha20(key, nonce, encode_utf8(plain))
}

/// The fields of a stored entry holding some base64 text: the algorithm, the
/// base64 of nonce and ciphertext, and the format version, in key order.
pub open spec fn entry_fields(b64: Seq<char>) -> Seq<(Seq<char>, JsonV)> {
    seq![("alg"@, JsonV::Text("ChaCha20"@)), ("nonce_ct_b64"@, JsonV::Text(b64)), ("v"@, JsonV::Number(1))]
}

/// The JSON text of a stored entry holding some base64 text.
pub open spec fn key_entry_text(b64: Seq<char>) -> Seq<char> {
    json_object_text(entry_fields(b64))
}

/// The entry a provider key is stored as.
pub open spec fn sealed_entry(key: Seq<u8>, nonce: Seq<u8>, plain: Seq<char>) -> Seq<char> {
    key_entry_text(base64_text(sealed_bytes(key, nonce, plain)))
}

/// The base64 text of the stored bytes of a sealed key has the shape of a padded
/// standard encoding: alphabet characters only, four for every three bytes or part
/// of them.
pub open spec fn sealed_text_shaped(key: Seq<u8>, nonce: Seq<u8>, plain: Seq<char>) -> bool {
    let b = sealed_bytes(key, nonce, plain);
    let t = base64_text(b);
    &&& t.len() == 4 * ((b.len() + 2) / 3)
    &&& forall|i: int| 0 <= i < t.len() ==> is_base64_char(#[trigger] t[i])
}

/// Seals a provider key under the derived key with a fresh nonce, as its JSON entry.
pub fn seal_api_key(key_bytes: &[u8; 32], nonce: &[u8; 12], api_key: &str) -> (r: String)
    requires
        encode_utf8(api_key@).len() <= chacha20_limit(),
    ensures
        r@ == sealed_entry(key_bytes@, nonce@, api_key@),
        sealed_text_shaped(key_bytes@, nonce@, api_key@),
        cipher_fits(r@),
{
    let mut buf: Vec<u8> = Vec::new();
    push_slice(&mut buf, api_key.as_bytes());
    let ghost plain = buf@;
    chacha20_apply(key_bytes, nonce, &mut buf);
    assert(buf@ =~= chacha20(key_bytes@, nonce@, plain));
    let mut stored: Vec<u8> = Vec::new();
    push_slice(&mut stored, nonce);
    push_slice(&mut stored, buf.as_slice());
    wipe_bytes(&mut buf);
    let b64 = base64_encode(stored.as_slice());
    let ghost t = b64@;
    let mut fields: Vec<(String, JsonValue)> = Vec::new();
    fields.push((owned("alg"), JsonValue::Text(owned("ChaCha20"))));
    fields.push((owned("nonce_ct_b64"), JsonValue::Text(b64)));
    fields.push((owned("v"), JsonValue::Number(1)));
    proof {
        lemma_entry_fields_ok(t);
        assert(json_fields_view(fields@) =~= entry_fields(t));
    }
    let r = json_object(fields.as_slice());
    proof {
        assert(json_fields_view(fields@)[1].1 == JsonV::Text(t));
        lemma_entry_starts_with_brace(t);
        assert(stored_base64(r@) == t);
    }
    r
}

/// The fields of an entry whose base64 text has alphabet characters only are
/// written as they are, in key order.
proof fn lemma_entry_fields_ok(b64: Seq<char>)
    requires
        forall|i: int| 0 <= i < b64.len() ==> is_base64_char(#[trigger] b64[i]),
    ensures
        json_fields_ok(entry_fields(b64)),
{
    reveal_strlit("alg");
    reveal_strlit("ChaCha20");
    reveal_strlit("nonce_ct_b64");
    reveal_strlit("v");
    let fs = entry_fields(b64);
    assert(text_before("alg"@, "nonce_ct_b64"@)) by {
        assert("alg"@.subrange(0, 0) =~= "nonce_ct_b64"@.subrange(0, 0));
    }
    assert(text_before("nonce_ct_b64"@, "v"@)) by {
        assert("nonce_ct_b64"@.subrange(0, 0) =~= "v"@.subrange(0, 0));
    }
    assert(json_plain("alg"@));
    assert(json_plain("ChaCha20"@));
    assert(json_plain("nonce_ct_b64"@));
    assert(json_plain("v"@));
    assert(json_plain(b64));
    assert forall|i: int| 0 <= i < fs.len() - 1 implies text_before(#[trigger] fs[i].0, fs[i + 1].0) by {
        if i == 0 {
        } else {
        }
    }
    assert forall|i: int| 0 <= i < fs.len() implies json_plain(#[trigger] fs[i].0) && (fs[i].1 matches JsonV::Text(
        t,
    ) ==> json_plain(t)) by {
        if i == 0 {
        } else if i == 1 {
        } else {
        }
    }
}

/// The text starts with `{` once leading white space is passed.
pub open spec fn starts_with_brace(raw: Seq<char>) -> bool {
    exists|i: int|
        0 <= i < raw.len() && raw[i] == '{' && forall|j: int| 0 <= j < i ==> spec_is_unicode_whitespace(#[trigger] raw[j])
}

/// The base64 text a stored entry holds: a JSON entry's `nonce_ct_b64` field (a
/// missing field reads as nothing), else the whole entry as legacy base64.
pub open spec fn stored_base64(raw: Seq<char>) -> Seq<char> {
    if starts_with_brace(raw) {
        match json_string_field(raw, "nonce_ct_b64"@) {
            Some(s) => s,
            None => Seq::empty(),
        }
    } else {
        raw
    }
}

/// The ciphertext a stored entry holds (after its 12-byte nonce), when its base64
/// text decodes to more than a nonce, is no longer than one ChaCha20 cipher takes.
pub open spec fn cipher_fits(raw: Seq<char>) -> bool {
    let b64 = stored_base64(raw);
    b64.len() == 0 || match base64_decoded(b64) {
        None => true,
        Some(bytes) => bytes.len() < 13 || bytes.len() - 12 <= chacha20_limit(),
    }
}

/// What reading a stored entry gives: a JSON entry's `nonce_ct_b64` field (a
/// missing field reads as nothing), else the whole entry as legacy base64; its
/// bytes, when they decode and hold more than a nonce, are the nonce and the
/// ciphertext, which is deciphered and read as (lossy) UTF-8.
pub open spec fn opened_text(key: Seq<u8>, raw: Seq<char>) -> Option<Seq<char>> {
    let b64 = if starts_with_brace(raw) {
        match json_string_field(raw, "nonce_ct_b64"@) {
            Some(s) => s,
            None => Seq::empty(),
        }
    } else {
        raw
    };
    if b64.len() == 0 {
        None
    } else {
        match base64_decoded(b64) {
            None => None,
            Some(bytes) => if bytes.len() < 13 {
                None
            } else {
                let nonce = bytes.subrange(0, 12);
                let ct = bytes.subrange(12, bytes.len() as int);
                Some(utf8_lossy_text(chacha20(key, nonce, ct)))
            },
        }
    }
}

fn starts_with_brace_exec(raw: &str) -> (r: bool)
    ensures
        r == starts_with_brace(raw@),
{
    let n = raw.unicode_len();
    let mut i: usize = 0;
    while i < n && is_unicode_whitespace(raw.get_char(i))
        invariant
            n == raw@.len(),
            i <= n,
            forall|j: int| 0 <= j < i ==> spec_is_unicode_whitespace(#[trigger] raw@[j]),
        decreases n - i,
    {
        i += 1;
    }
    if i < n && raw.get_char(i) == '{' {
        return true;
    }
    proof {
        assert forall|k: int|
            0 <= k < raw@.len() && raw@[k] == '{' implies !(forall|j: int|
                0 <= j < k ==> spec_is_unicode_whitespace(#[trigger] raw@[j])) by {
            if k < i {
                assert(spec_is_unicode_whitespace(raw@[k]));
            } else if k > i {
                assert(!spec_is_unicode_whitespace(raw@[i as int]));
            }
        }
    }
    false
}

/// A text with a character has a UTF-8 byte.
pub proof fn lemma_encode_nonempty(t: Seq<char>)
    requires
        t.len() > 0,
    ensures
        encode_utf8(t).len() > 0,
{
    vstd::utf8::encode_utf8_first_scalar(t);
}

proof fn lemma_xor_twice(a: u8, b: u8)
    ensures
        (a ^ b) ^ b == a,
{
    assert((a ^ b) ^ b == a) by (bit_vector);
}

proof fn lemma_entry_starts_with_brace(b64: Seq<char>)
    ensures
        starts_with_brace(key_entry_text(b64)),
{
    reveal_strlit("{");
    let t = key_entry_text(b64);
    assert(t[0] == '{');
}

/// Whether a stored entry's ciphertext fits one ChaCha20 cipher (see `cipher_fits`).
pub fn stored_cipher_fits(raw: &str) -> (r: bool)
    ensures
        r == cipher_fits(raw@),
{
    let from_json = starts_with_brace_exec(raw);
    let b64 = if from_json {
        match json_str_field(raw, "nonce_ct_b64") {
            Some(nc) => nc,
            None => String::new(),
        }
    } else {
        owned(raw)
    };
    assert(b64@ == stored_base64(raw@));
    if b64.as_str().unicode_len() == 0 {
        return true;
    }
    match base64_decode(b64.as_str()) {
        None => true,
        Some(bytes) => {
            let n = bytes.len() as u64;
            n < 13 || n - 12 <= 0x3F_FFFF_FFC0u64
        },
    }
}

/// Reads a stored entry back, as `open_api_key` does, when its ciphertext fits one
/// ChaCha20 cipher; `None` when it does not (the cipher would give out).
pub fn try_open_api_key(key_bytes: &[u8; 32], raw: &str) -> (r: Option<Option<String>>)
    ensures
        r is None <==> !cipher_fits(raw@),
        r matches Some(x) ==> match x {
            Some(s) => opened_text(key_bytes@, raw@) == Some(s@),
            None => opened_text(key_bytes@, raw@) is None,
        },
        forall|nonce: Seq<u8>, plain: Seq<char>|
            nonce.len() == 12 && encode_utf8(plain).len() > 0 && raw@ == #[trigger] sealed_entry(key_bytes@, nonce, plain)
                && sealed_text_shaped(key_bytes@, nonce, plain) && cipher_fits(raw@) ==> (r matches Some(Some(s))
                && s@ == plain),
{
    if stored_cipher_fits(raw) {
        Some(open_api_key(key_bytes, raw))
    } else {
        None
    }
}

/// Reads a stored entry back with the derived key (see `opened_text`). An entry
/// sealed under the same key gives back the provider key it sealed, when that key
/// is not empty.
pub fn open_api_key(key_bytes: &[u8; 32], raw: &str) -> (r: Option<String>)
    requires
        cipher_fits(raw@),
    ensures
        r matches Some(s) ==> encode_utf8(s@).len() > 0,
        match r {
            Some(s) => opened_text(key_bytes@, raw@) == Some(s@),
            None => opened_text(key_bytes@, raw@) is None,
        },
        forall|nonce: Seq<u8>, plain: Seq<char>|
            nonce.len() == 12 && encode_utf8(plain).len() > 0 && raw@ == #[trigger] sealed_entry(key_bytes@, nonce, plain)
                && sealed_text_shaped(key_bytes@, nonce, plain) ==> (r matches Some(s) && s@ == plain),
{
    let from_json = starts_with_brace_exec(raw);
    let b64 = if from_json {
        match json_str_field(raw, "nonce_ct_b64") {
            Some(nc) => nc,
            None => String::new(),
        }
    } else {
        owned(raw)
    };
    proof {
        assert forall|nonce: Seq<u8>, plain: Seq<char>|
            nonce.len() == 12 && encode_utf8(plain).len() > 0 && raw@ == #[trigger] sealed_entry(key_bytes@, nonce, plain)
                && sealed_text_shaped(key_bytes@, nonce, plain)
            implies b64@ == base64_text(sealed_bytes(key_bytes@, nonce, plain)) && b64@.len() > 0 by {
            let x = base64_text(sealed_bytes(key_bytes@, nonce, plain));
            lemma_entry_starts_with_brace(x);
            lemma_entry_fields_ok(x);
            assert(entry_fields(x)[1] == ("nonce_ct_b64"@, JsonV::Text(x)));
            assert(json_written_field(raw@, "nonce_ct_b64"@, x));
            assert(from_json);
        }
    }
    if b64.as_str().unicode_len() == 0 {
        return None;
    }
    let bytes = match base64_decode(b64.as_str()) {
        Some(v) => v,
        None => {
            return None;
        },
    };
    if bytes.len() < 13 {
        return None;
    }
    let mut nonce = [0u8; 12];
    let mut k: usize = 0;
    while k < 12
        invariant
            bytes@.len() >= 13,
            k <= 12,
            nonce@.len() == 12,
            forall|j: int| 0 <= j < k ==> nonce@[j] == bytes@[j],
        decreases 12 - k,
    {
        nonce[k] = bytes[k];
        k += 1;
    }
    assert(nonce@ =~= bytes@.subrange(0, 12));
    let mut ct: Vec<u8> = Vec::new();
    let mut i: usize = 12;
    while i < bytes.len()
        invariant
            12 <= i <= bytes@.len(),
            ct@ == bytes@.subrange(12, i as int),
        decreases bytes@.len() - i,
    {
        ct.push(bytes[i]);
        i += 1;
        assert(ct@ =~= bytes@.subrange(12, i as int));
    }
    let ghost ct0 = ct@;
    chacha20_apply(key_bytes, &nonce, &mut ct);
    assert(ct@ =~= chacha20(key_bytes@, nonce@, ct0));
    let s = utf8_lossy(ct.as_slice());
    wipe_bytes(&mut ct);
    proof {
        lemma_encode_nonempty(s@);
        assert forall|n: Seq<u8>, plain: Seq<char>|
            n.len() == 12 && encode_utf8(plain).len() > 0 && raw@ == #[trigger] sealed_entry(key_bytes@, n, plain)
                && sealed_text_shaped(key_bytes@, n, plain)
            implies s@ == plain by {
            let sb = sealed_bytes(key_bytes@, n, plain);
            assert(bytes@ == sb);
            let p = encode_utf8(plain);
            let c = chacha20(key_bytes@, n, p);
            assert(sb =~= n + c);
            assert(nonce@ =~= n);
            assert(ct0 =~= c);
            assert forall|j: int| 0 <= j < p.len() implies #[trigger] chacha20(key_bytes@, n, c)[j] == p[j] by {
                lemma_xor_twice(p[j], chacha20_keystream(key_bytes@, n, p.len())[j]);
            }
            assert(chacha20(key_bytes@, n, c) =~= p);
        }
    }
    Some(s)
}

/// The stored entries of the providers, keyed by provider name; each provider
/// occurs once, in the order it was first stored.
pub struct KeyStore {
    entries: Vec<(String, String)>,
}

/// The index of a provider among the names (any one, when there are several).
spec fn name_index(names: Seq<Seq<char>>, k: Seq<char>) -> int {
    choose|i: int| 0 <= i < names.len() && names[i] == k
}

impl KeyStore {
    /// The stored providers, in the order they were first stored.
    pub closed spec fn names(&self) -> Seq<Seq<char>> {
        self.entries@.map_values(|e: (String, String)| e.0@)
    }

    /// No provider is stored twice.
    pub closed spec fn wf(&self) -> bool {
        forall|i: int, j: int|
            0 <= i < self.entries@.len() && 0 <= j < self.entries@.len() && i != j
                ==> #[trigger] self.entries@[i].0@ != #[trigger] self.entries@[j].0@
    }

    /// The providers are the keys of the store's map, each once.
    pub proof fn lemma_names(&self)
        requires
            self.wf(),
        ensures
            forall|k: Seq<char>| self@.contains_key(k) <==> self.names().contains(k),
            self.names().no_duplicates(),
    {
        assert forall|i: int, j: int|
            0 <= i < self.names().len() && 0 <= j < self.names().len() && i != j implies self.names()[i]
            != self.names()[j] by {
            assert(self.entries@[i].0@ != self.entries@[j].0@);
        }
    }

    proof fn lemma_value_at(&self, i: int)
        requires
            self.wf(),
            0 <= i < self.entries@.len(),
        ensures
            self@.contains_key(self.entries@[i].0@),
            self@[self.entries@[i].0@] == self.entries@[i].1@,
    {
        let k = self.entries@[i].0@;
        assert(self.names()[i] == k);
        let j = name_index(self.names(), k);
        assert(self.names()[j] == k);
        assert(self.entries@[j].0@ == k);
    }

    /// An empty store.
    pub fn new() -> (r: KeyStore)
        ensures
            r.wf(),
            r@ == Map::<Seq<char>, Seq<char>>::empty(),
            r.names().len() == 0,
    {
        let r = KeyStore { entries: Vec::new() };
        assert(r@ =~= Map::<Seq<char>, Seq<char>>::empty());
        r
    }

    fn find(&self, provider: &str) -> (r: Option<usize>)
        ensures
            match r {
                Some(i) => i < self.entries@.len() && self.entries@[i as int].0@ == provider@,
                None => forall|j: int| 0 <= j < self.entries@.len() ==> #[trigger] self.entries@[j].0@ != provider@,
            },
    {
        let mut i: usize = 0;
        while i < self.entries.len()
            invariant
                i <= self.entries@.len(),
                forall|j: int| 0 <= j < i ==> #[trigger] self.entries@[j].0@ != provider@,
            decreases self.entries@.len() - i,
        {
            if same_text(self.entries[i].0.as_str(), provider) {
                return Some(i);
            }
            i += 1;
        }
        None
    }

    /// The entry stored for a provider.
    pub fn get(&self, provider: &str) -> (r: Option<String>)
        requires
            self.wf(),
        ensures
            match r {
                Some(s) => self@.contains_key(provider@) && self@[provider@] == s@,
                None => !self@.contains_key(provider@),
            },
    {
        match self.find(provider) {
            Some(i) => {
                proof {
                    self.lemma_value_at(i as int);
                }
                Some(self.entries[i].1.clone())
            },
            None => {
                proof {
                    if self@.contains_key(provider@) {
                        let j = name_index(self.names(), provider@);
                        assert(self.entries@[j].0@ == provider@);
                    }
                }
                None
            },
        }
    }

    /// Stores the entry for a provider, in place of the one it had; a new provider
    /// goes last.
    pub fn insert(&mut self, provider: String, entry: String)
        requires
            old(self).wf(),
        ensures
            final(self).wf(),
            final(self)@ == old(self)@.insert(provider@, entry@),
            final(self).names() == (if old(self)@.contains_key(provider@) {
                old(self).names()
            } else {
                old(self).names().push(provider@)
            }),
    {
        let ghost k = provider@;
        let ghost v = entry@;
        match self.find(provider.as_str()) {
            Some(i) => {
                proof {
                    old(self).lemma_value_at(i as int);
                }
                self.entries.set(i, (provider, entry));
                assert(self.names() =~= old(self).names());
                assert forall|a: int, b: int|
                    0 <= a < self.entries@.len() && 0 <= b < self.entries@.len() && a != b implies #[trigger] self.entries@[a].0@
                    != #[trigger] self.entries@[b].0@ by {
                    assert(old(self).entries@[a].0@ != old(self).entries@[b].0@);
                }
                assert forall|q: Seq<char>| #[trigger] self@.contains_key(q) == old(self)@.insert(k, v).contains_key(q) by {
                    if old(self)@.contains_key(q) {
                        let j = name_index(old(self).names(), q);
                        assert(old(self).entries@[j].0@ == q);
                        assert(self.names()[j] == q);
                    }
                    if self@.contains_key(q) {
                        let j = name_index(self.names(), q);
                        assert(self.entries@[j].0@ == q);
                        assert(old(self).names()[j] == q);
                    }
                }
                assert forall|q: Seq<char>| #[trigger] self@.contains_key(q) implies self@[q] == old(self)@.insert(k, v)[q] by {
                    let j = name_index(self.names(), q);
                    assert(self.entries@[j].0@ == q);
                    self.lemma_value_at(j);
                    if q != k {
                        old(self).lemma_value_at(j);
                    } else {
                        assert(j == i);
                    }
                }
                assert(self@ =~= old(self)@.insert(k, v));
            },
            None => {
                self.entries.push((provider, entry));
                assert(self.names() =~= old(self).names().push(k));
                let ghost n = old(self).entries@.len() as int;
                assert forall|a: int, b: int|
                    0 <= a < self.entries@.len() && 0 <= b < self.entries@.len() && a != b implies #[trigger] self.entries@[a].0@
                    != #[trigger] self.entries@[b].0@ by {
                    if a < n && b < n {
                        assert(old(self).entries@[a].0@ != old(self).entries@[b].0@);
                    } else if a < n {
                        assert(old(self).entries@[a].0@ != k);
                    } else {
                        assert(old(self).entries@[b].0@ != k);
                    }
                }
                assert(!old(self)@.contains_key(k)) by {
                    if old(self)@.contains_key(k) {
                        let j = name_index(old(self).names(), k);
                        assert(old(self).entries@[j].0@ == k);
                    }
                }
                assert forall|q: Seq<char>| #[trigger] self@.contains_key(q) == old(self)@.insert(k, v).contains_key(q) by {
                    if old(self)@.contains_key(q) {
                        let j = name_index(old(self).names(), q);
                        assert(old(self).entries@[j].0@ == q);
                        assert(self.names()[j] == q);
                    }
                    if q == k {
                        assert(self.names()[n] == q);
                    }
                    if self@.contains_key(q) && q != k {
                        let j = name_index(self.names(), q);
                        assert(self.entries@[j].0@ == q);
                        assert(old(self).names()[j] == q);
                    }
                }
                assert forall|q: Seq<char>| #[trigger] self@.contains_key(q) implies self@[q] == old(self)@.insert(k, v)[q] by {
                    let j = name_index(self.names(), q);
                    assert(self.entries@[j].0@ == q);
                    self.lemma_value_at(j);
                    if q != k {
                        assert(j < n);
                        old(self).lemma_value_at(j);
                    }
                }
                assert(self@ =~= old(self)@.insert(k, v));
            },
        }
    }

    /// Removes a provider and its entry, if it is stored.
    pub fn remove(&mut self, provider: &str)
        requires
            old(self).wf(),
        ensures
            final(self).wf(),
            final(self)@ == old(self)@.remove(provider@),
    {
        let ghost k = provider@;
        match self.find(provider) {
            Some(i) => {
                let _ = self.entries.remove(i);
                let ghost o = old(self).entries@;
                assert forall|a: int, b: int|
                    0 <= a < self.entries@.len() && 0 <= b < self.entries@.len() && a != b implies #[trigger] self.entries@[a].0@
                    != #[trigger] self.entries@[b].0@ by {
                    let a0 = if a < i { a } else { a + 1 };
                    let b0 = if b < i { b } else { b + 1 };
                    assert(o[a0].0@ != o[b0].0@);
                }
                assert forall|q: Seq<char>| #[trigger] self@.contains_key(q) == old(self)@.remove(k).contains_key(q) by {
                    if old(self)@.contains_key(q) && q != k {
                        let j = name_index(old(self).names(), q);
                        assert(o[j].0@ == q);
                        assert(j != i);
                        let j1 = if j < i { j } else { j - 1 };
                        assert(self.entries@[j1].0@ == q);
                        assert(self.names()[j1] == q);
                    }
                    if self@.contains_key(q) {
                        let j = name_index(self.names(), q);
                        assert(self.entries@[j].0@ == q);
                        let j0 = if j < i { j } else { j + 1 };
                        assert(o[j0].0@ == q);
                        assert(old(self).names()[j0] == q);
                        assert(j0 != i as int);
                    }
                }
                assert forall|q: Seq<char>| #[trigger] self@.contains_key(q) implies self@[q] == old(self)@.remove(k)[q] by {
                    let j = name_index(self.names(), q);
                    assert(self.entries@[j].0@ == q);
                    self.lemma_value_at(j);
                    let j0 = if j < i { j } else { j + 1 };
                    assert(o[j0] == self.entries@[j]);
                    old(self).lemma_value_at(j0);
                }
                assert(self@ =~= old(self)@.remove(k));
            },
            None => {
                assert(!old(self)@.contains_key(k)) by {
                    if old(self)@.contains_key(k) {
                        let j = name_index(old(self).names(), k);
                        assert(old(self).entries@[j].0@ == k);
                    }
                }
                assert(self@ =~= old(self)@.remove(k));
            },
        }
    }

    /// The stored providers, each once, in the order they were first stored.
    pub fn providers(&self) -> (r: Vec<String>)
        ensures
            r@.len() == self.names().len(),
            forall|i: int| 0 <= i < r@.len() ==> #[trigger] r@[i]@ == self.names()[i],
    {
        let mut out: Vec<String> = Vec::new();
        let mut i: usize = 0;
        while i < self.entries.len()
            invariant
                i <= self.entries@.len(),
                out@.len() == i,
                forall|j: int| 0 <= j < i ==> #[trigger] out@[j]@ == self.entries@[j].0@,
            decreases self.entries@.len() - i,
        {
            out.push(self.entries[i].0.clone());
            i += 1;
        }
        out
    }
}

impl View for KeyStore {
    type V = Map<Seq<char>, Seq<char>>;

    closed spec fn view(&self) -> Map<Seq<char>, Seq<char>> {
        Map::new(
            |k: Seq<char>| self.names().contains(k),
            |k: Seq<char>| self.entries@[name_index(self.names(), k)].1@,
        )
    }
}

/// Stores a provider's key, sealed under the derived key with a fresh random
/// nonce, in place of any key it had.
pub fn set_api_key(store: &mut KeyStore, key_bytes: &[u8; 32], provider: &str, key: &str)
    requires
        old(store).wf(),
        encode_utf8(key@).len() <= chacha20_limit(),
    ensures
        final(store).wf(),
        final(store).names() == (if old(store)@.contains_key(provider@) {
            old(store).names()
        } else {
            old(store).names().push(provider@)
        }),
        exists|nonce: Seq<u8>|
            nonce.len() == 12 && #[trigger] sealed_text_shaped(key_bytes@, nonce, key@) && cipher_fits(
                sealed_entry(key_bytes@, nonce, key@),
            ) && final(store)@ == old(store)@.insert(provider@, sealed_entry(key_bytes@, nonce, key@)),
{
    let nonce = random_nonce();
    let entry = seal_api_key(key_bytes, &nonce, key);
    store.insert(owned(provider), entry);
    assert(sealed_text_shaped(key_bytes@, nonce@, key@));
}

/// Reads a provider's key back with the derived key (see `opened_text`); a
/// provider with no entry has none. A key stored by `set_api_key` under the same
/// derived key is given back, when it is not empty.
pub fn get_api_key(store: &KeyStore, key_bytes: &[u8; 32], provider: &str) -> (r: Option<String>)
    requires
        store.wf(),
        store@.contains_key(provider@) ==> cipher_fits(store@[provider@]),
    ensures
        r matches Some(s) ==> encode_utf8(s@).len() > 0,
        !store@.contains_key(provider@) ==> r is None,
        store@.contains_key(provider@) ==> match r {
            Some(s) => opened_text(key_bytes@, store@[provider@]) == Some(s@),
            None => opened_text(key_bytes@, store@[provider@]) is None,
        },
        forall|nonce: Seq<u8>, plain: Seq<char>|
            nonce.len() == 12 && encode_utf8(plain).len() > 0 && store@.contains_key(provider@) && store@[provider@]
                == #[trigger] sealed_entry(key_bytes@, nonce, plain) && sealed_text_shaped(key_bytes@, nonce, plain)
                ==> (r matches Some(s) && s@ == plain),
{
    match store.get(provider) {
        Some(raw) => open_api_key(key_bytes, raw.as_str()),
        None => None,
    }
}

/// Reads a provider's key back, as `get_api_key` does, when its stored ciphertext
/// fits one ChaCha20 cipher; `None` when it does not (the cipher would give out).
pub fn try_get_api_key(store: &KeyStore, key_bytes: &[u8; 32], provider: &str) -> (r: Option<Option<String>>)
    requires
        store.wf(),
    ensures
        r is None <==> (store@.contains_key(provider@) && !cipher_fits(store@[provider@])),
        r matches Some(x) ==> (!store@.contains_key(provider@) ==> x is None),
        r matches Some(x) ==> (store@.contains_key(provider@) ==> match x {
            Some(s) => opened_text(key_bytes@, store@[provider@]) == Some(s@),
            None => opened_text(key_bytes@, store@[provider@]) is None,
        }),
        forall|nonce: Seq<u8>, plain: Seq<char>|
            nonce.len() == 12 && encode_utf8(plain).len() > 0 && store@.contains_key(provider@) && store@[provider@]
                == #[trigger] sealed_entry(key_bytes@, nonce, plain) && sealed_text_shaped(key_bytes@, nonce, plain)
                && cipher_fits(store@[provider@]) ==> (r matches Some(Some(s)) && s@ == plain),
{
    match store.get(provider) {
        Some(raw) => {
            if stored_cipher_fits(raw.as_str()) {
                Some(get_api_key(store, key_bytes, provider))
            } else {
                None
            }
        },
        None => Some(None),
    }
}

/// Removes a provider's key.
pub fn delete_api_key(store: &mut KeyStore, provider: &str)
    requires
        old(store).wf(),
    ensures
        final(store).wf(),
        final(store)@ == old(store)@.remove(provider@),
{
    store.remove(provider);
}

/// The providers that have a key, each once.
pub fn list_providers(store: &KeyStore) -> (r: Vec<String>)
    requires
        store.wf(),
    ensures
        forall|k: Seq<char>| store@.contains_key(k) <==> exists|i: int| 0 <= i < r@.len() && #[trigger] r@[i]@ == k,
        forall|i: int, j: int| 0 <= i < r@.len() && 0 <= j < r@.len() && i != j ==> #[trigger] r@[i]@ != #[trigger] r@[j]@,
{
    let r = store.providers();
    proof {
        store.lemma_names();
        assert forall|k: Seq<char>| store@.contains_key(k) implies exists|i: int|
            0 <= i < r@.len() && #[trigger] r@[i]@ == k by {
            let i = choose|i: int| 0 <= i < store.names().len() && store.names()[i] == k;
            assert(r@[i]@ == k);
        }
        assert forall|k: Seq<char>| (exists|i: int| 0 <= i < r@.len() && #[trigger] r@[i]@ == k) implies store@.contains_key(
            k,
        ) by {
            let i = choose|i: int| 0 <= i < r@.len() && #[trigger] r@[i]@ == k;
            assert(store.names()[i] == k);
        }
    }
    r
}

/// What a rotation leaves of one entry: a key that reads back (as a text of at least
/// one byte) is sealed again under the derived key with a new nonce, so that it reads
/// back the same (its ciphertext fits one cipher); an entry that does not is kept.
pub open spec fn rotated_entry(key: Seq<u8>, before: Seq<char>, after: Seq<char>) -> bool {
    match opened_text(key, before) {
        Some(t) => encode_utf8(t).len() > 0 && exists|nonce: Seq<u8>|
            nonce.len() == 12 && #[trigger] sealed_text_shaped(key, nonce, t) && after == sealed_entry(key, nonce, t)
                && cipher_fits(after),
        None => after == before,
    }
}

/// What a key rotation did: how many providers it tried, how many keys it
/// re-sealed, and the providers it failed on with the reason.
#[derive(Debug)]
pub struct RotationReport {
    pub attempted: usize,
    pub rotated: usize,
    pub errors: Vec<(String, String)>,
}

/// Seals every stored key again under the derived key with a fresh nonce. A key
/// that does not read back is left as it is and reported as `decrypt_failed`.
pub fn rotate_all_keys(store: &mut KeyStore, key_bytes: &[u8; 32]) -> (r: RotationReport)
    requires
        old(store).wf(),
        forall|k: Seq<char>| #[trigger]
            old(store)@.contains_key(k) ==> cipher_fits(old(store)@[k]) && (opened_text(
                key_bytes@,
                old(store)@[k],
            ) matches Some(t) ==> encode_utf8(t).len() <= chacha20_limit()),
    ensures
        final(store).wf(),
        final(store).names() == old(store).names(),
        forall|k: Seq<char>| #[trigger] final(store)@.contains_key(k) == old(store)@.contains_key(k),
        forall|k: Seq<char>| #[trigger]
            old(store)@.contains_key(k) ==> rotated_entry(key_bytes@, old(store)@[k], final(store)@[k]),
        r.attempted == old(store).names().len(),
        r.rotated + r.errors@.len() == r.attempted,
        forall|a: int|
            0 <= a < r.errors@.len() ==> (#[trigger] r.errors@[a]).1@ == "decrypt_failed"@ && old(store)@.contains_key(
                r.errors@[a].0@,
            ) && opened_text(key_bytes@, old(store)@[r.errors@[a].0@]) is None,
        forall|k: Seq<char>|
            old(store)@.contains_key(k) && #[trigger] opened_text(key_bytes@, old(store)@[k]) is None ==> exists|a: int|
                0 <= a < r.errors@.len() && #[trigger] r.errors@[a].0@ == k,
        forall|a: int, b: int|
            0 <= a < r.errors@.len() && 0 <= b < r.errors@.len() && a != b ==> (#[trigger] r.errors@[a]).0@ != (
            #[trigger] r.errors@[b]).0@,
{
    let names = store.providers();
    let n = names.len();
    let ghost old_map = store@;
    let ghost old_names = store.names();
    proof {
        store.lemma_names();
    }
    let mut rotated: usize = 0;
    let mut errors: Vec<(String, String)> = Vec::new();
    let mut i: usize = 0;
    while i < n
        invariant
            n == names@.len(),
            n == old_names.len(),
            old_names.no_duplicates(),
            forall|j: int| 0 <= j < n ==> #[trigger] names@[j]@ == old_names[j],
            forall|k: Seq<char>| old_map.contains_key(k) <==> old_names.contains(k),
            forall|k: Seq<char>| #[trigger]
                old_map.contains_key(k) ==> cipher_fits(old_map[k]) && (opened_text(
                    key_bytes@,
                    old_map[k],
                ) matches Some(t) ==> encode_utf8(t).len() <= chacha20_limit()),
            i <= n,
            store.wf(),
            store.names() == old_names,
            forall|k: Seq<char>| #[trigger] store@.contains_key(k) == old_map.contains_key(k),
            forall|j: int| i <= j < n ==> store@[#[trigger] old_names[j]] == old_map[old_names[j]],
            forall|j: int| 0 <= j < i ==> rotated_entry(key_bytes@, old_map[#[trigger] old_names[j]], store@[old_names[j]]),
            rotated + errors@.len() == i,
            forall|a: int|
                0 <= a < errors@.len() ==> (#[trigger] errors@[a]).1@ == "decrypt_failed"@ && old_map.contains_key(
                    errors@[a].0@,
                ) && opened_text(key_bytes@, old_map[errors@[a].0@]) is None && exists|m: int|
                    0 <= m < i && old_names[m] == errors@[a].0@,
            forall|j: int|
                0 <= j < i && opened_text(key_bytes@, old_map[#[trigger] old_names[j]]) is None ==> exists|a: int|
                    0 <= a < errors@.len() && #[trigger] errors@[a].0@ == old_names[j],
            forall|a: int, b: int|
                0 <= a < errors@.len() && 0 <= b < errors@.len() && a != b ==> (#[trigger] errors@[a]).0@ != (
                #[trigger] errors@[b]).0@,
        decreases n - i,
    {
        let p = names[i].as_str();
        let ghost pk = old_names[i as int];
        assert(old_names.contains(pk));
        let ghost prev = store@;
        let ghost prev_errors = errors@;
        match get_api_key(store, key_bytes, p) {
            Some(plain) => {
                set_api_key(store, key_bytes, p, plain.as_str());
                rotated = rotated + 1;
                assert forall|j: int| i < j < n implies store@[#[trigger] old_names[j]] == old_map[old_names[j]] by {
                    assert(old_names[j] != pk);
                }
                assert forall|j: int|
                    0 <= j < i + 1 implies rotated_entry(key_bytes@, old_map[#[trigger] old_names[j]], store@[old_names[j]]) by {
                    if j < i {
                        assert(old_names[j] != pk);
                    }
                }
                assert forall|j: int|
                    0 <= j < i + 1 && opened_text(key_bytes@, old_map[#[trigger] old_names[j]]) is None implies exists|a: int|
                    0 <= a < errors@.len() && #[trigger] errors@[a].0@ == old_names[j] by {
                    assert(j < i);
                }
            },
            None => {
                let msg = owned("decrypt_failed");
                errors.push((names[i].clone(), msg));
                assert(errors@[errors@.len() - 1].0@ == pk);
                assert forall|a: int|
                    0 <= a < errors@.len() implies (#[trigger] errors@[a]).1@ == "decrypt_failed"@ && old_map.contains_key(
                    errors@[a].0@,
                ) && opened_text(key_bytes@, old_map[errors@[a].0@]) is None && exists|m: int|
                    0 <= m < i + 1 && old_names[m] == errors@[a].0@ by {
                    if a < prev_errors.len() {
                        assert(errors@[a] == prev_errors[a]);
                    } else {
                        assert(old_names[i as int] == errors@[a].0@);
                    }
                }
                assert forall|j: int|
                    0 <= j < i + 1 && opened_text(key_bytes@, old_map[#[trigger] old_names[j]]) is None implies exists|a: int|
                    0 <= a < errors@.len() && #[trigger] errors@[a].0@ == old_names[j] by {
                    if j < i {
                        let a = choose|a: int| 0 <= a < prev_errors.len() && #[trigger] prev_errors[a].0@ == old_names[j];
                        assert(errors@[a] == prev_errors[a]);
                    } else {
                        assert(errors@[errors@.len() - 1].0@ == old_names[j]);
                    }
                }
                assert forall|a: int, b: int|
                    0 <= a < errors@.len() && 0 <= b < errors@.len() && a != b implies (#[trigger] errors@[a]).0@ != (
                    #[trigger] errors@[b]).0@ by {
                    let last = errors@.len() - 1;
                    if a < last && b < last {
                        assert(errors@[a] == prev_errors[a]);
                        assert(errors@[b] == prev_errors[b]);
                    } else if a < last {
                        assert(errors@[a] == prev_errors[a]);
                        let m = choose|m: int| 0 <= m < i && old_names[m] == prev_errors[a].0@;
                        assert(old_names[m] != old_names[i as int]);
                    } else if b < last {
                        assert(errors@[b] == prev_errors[b]);
                        let m = choose|m: int| 0 <= m < i && old_names[m] == prev_errors[b].0@;
                        assert(old_names[m] != old_names[i as int]);
                    }
                }
            },
        }
        i += 1;
    }
    proof {
        assert forall|k: Seq<char>| #[trigger]
            old_map.contains_key(k) implies rotated_entry(key_bytes@, old_map[k], store@[k]) by {
            let j = choose|j: int| 0 <= j < old_names.len() && old_names[j] == k;
            assert(rotated_entry(key_bytes@, old_map[old_names[j]], store@[old_names[j]]));
        }
        assert forall|k: Seq<char>|
            old_map.contains_key(k) && #[trigger] opened_text(key_bytes@, old_map[k]) is None implies exists|a: int|
            0 <= a < errors@.len() && #[trigger] errors@[a].0@ == k by {
            let j = choose|j: int| 0 <= j < old_names.len() && old_names[j] == k;
            assert(opened_text(key_bytes@, old_map[old_names[j]]) is None);
        }
    }
    RotationReport { attempted: n, rotated, errors }
}

/// Every stored key can be rotated: its ciphertext fits one ChaCha20 cipher, and
/// the text it reads back fits one too when sealed again.
pub open spec fn rotatable(key: Seq<u8>, m: Map<Seq<char>, Seq<char>>) -> bool {
    forall|k: Seq<char>| #[trigger]
        m.contains_key(k) ==> cipher_fits(m[k]) && (opened_text(key, m[k]) matches Some(t) ==> encode_utf8(t).len()
            <= chacha20_limit())
}

/// Rotates every stored key, as `rotate_all_keys` does, when each can be rotated;
/// `None`, with the store untouched, when one cannot (the cipher would give out).
pub fn try_rotate_all_keys(store: &mut KeyStore, key_bytes: &[u8; 32]) -> (r: Option<RotationReport>)
    requires
        old(store).wf(),
    ensures
        final(store).wf(),
        r is None <==> !rotatable(key_bytes@, old(store)@),
        r is None ==> *final(store) == *old(store),
        r matches Some(rep) ==> {
            &&& final(store).names() == old(store).names()
            &&& forall|k: Seq<char>| #[trigger] final(store)@.contains_key(k) == old(store)@.contains_key(k)
            &&& forall|k: Seq<char>| #[trigger]
                old(store)@.contains_key(k) ==> rotated_entry(key_bytes@, old(store)@[k], final(store)@[k])
            &&& rep.attempted == old(store).names().len()
            &&& rep.rotated + rep.errors@.len() == rep.attempted
            &&& forall|a: int|
                0 <= a < rep.errors@.len() ==> (#[trigger] rep.errors@[a]).1@ == "decrypt_failed"@
                    && old(store)@.contains_key(rep.errors@[a].0@) && opened_text(key_bytes@, old(store)@[rep.errors@[a].0@]) is None
            &&& forall|k: Seq<char>|
                old(store)@.contains_key(k) && #[trigger] opened_text(key_bytes@, old(store)@[k]) is None ==> exists|a: int|
                    0 <= a < rep.errors@.len() && #[trigger] rep.errors@[a].0@ == k
            &&& forall|a: int, b: int|
                0 <= a < rep.errors@.len() && 0 <= b < rep.errors@.len() && a != b ==> (#[trigger] rep.errors@[a]).0@
                    != (#[trigger] rep.errors@[b]).0@
        },
{
    let names = store.providers();
    let n = names.len();
    let ghost old_names = store.names();
    proof {
        store.lemma_names();
    }
    let mut i: usize = 0;
    while i < n
        invariant
            n == names@.len(),
            n == old_names.len(),
            old_names == store.names(),
            store.wf(),
            *store == *old(store),
            forall|j: int| 0 <= j < n ==> #[trigger] names@[j]@ == old_names[j],
            forall|k: Seq<char>| store@.contains_key(k) <==> old_names.contains(k),
            i <= n,
            forall|j: int|
                0 <= j < i ==> cipher_fits(store@[#[trigger] old_names[j]]) && (opened_text(key_bytes@, store@[old_names[j]]) matches Some(
                    t,
                ) ==> encode_utf8(t).len() <= chacha20_limit()),
        decreases n - i,
    {
        let ghost pk = old_names[i as int];
        assert(old_names.contains(pk));
        match store.get(names[i].as_str()) {
            Some(raw) => {
                if !stored_cipher_fits(raw.as_str()) {
                    return None;
                }
                match open_api_key(key_bytes, raw.as_str()) {
                    Some(t) => {
                        if t.as_str().as_bytes().len() as u64 > 0x3F_FFFF_FFC0u64 {
                            return None;
                        }
                    },
                    None => {},
                }
            },
            None => {},
        }
        i += 1;
    }
    proof {
        assert forall|k: Seq<char>| #[trigger] store@.contains_key(k) implies cipher_fits(store@[k]) && (opened_text(
            key_bytes@,
            store@[k],
        ) matches Some(t) ==> encode_utf8(t).len() <= chacha20_limit()) by {
            let j = choose|j: int| 0 <= j < old_names.len() && old_names[j] == k;
            assert(cipher_fits(store@[old_names[j]]));
        }
    }
    Some(rotate_all_keys(store, key_bytes))
}

} // verus!
