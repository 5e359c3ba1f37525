//! Authenticated encryption of a secret into a self-describing record, and back.
use vstd::prelude::*;
use aes_gcm::aead::{Aead, KeyInit};
use base64::Engine;
use vstd::utf8::{encode_utf8, valid_utf8, encode_utf8_decode_utf8};
use crate::error::VaultError;
use crate::entropy::random_bytes;
use crate::kdf::{derive_key, argon2id_key, MAX_INPUT_LEN};

verus! {

/// Length in bytes of the per-installation master salt.
pub const MASTER_SALT_LEN: usize = 32;

/// Length in bytes of the salt drawn for each record.
pub const RECORD_SALT_LEN: usize = 16;

/// Length in bytes of an AES-GCM nonce.
pub const NONCE_LEN: usize = 12;

/// Length in bytes of the authentication tag appended to a ciphertext.
pub const TAG_LEN: usize = 16;

/// Longest plaintext that AES-GCM seals, in bytes.
pub const MAX_PLAINTEXT_LEN: u64 = 0x10_0000_0000;

/// One sealed secret: three base64 texts, none of them secret on its own.
#[derive(Debug, Clone)]
pub struct EncryptedData {
    /// Ciphertext followed by its authentication tag.
    pub ciphertext: String,
    /// The nonce, 12 bytes.
    pub nonce: String,
    /// The record salt, 16 bytes.
    pub salt: String,
}

/// What a record holds, as character sequences.
pub struct RecordText {
    pub ciphertext: Seq<char>,
    pub nonce: Seq<char>,
    pub salt: Seq<char>,
}

impl View for EncryptedData {
    type V = RecordText;

    open spec fn view(&self) -> RecordText {
        RecordText { ciphertext: self.ciphertext@, nonce: self.nonce@, salt: self.salt@ }
    }
}

/// The character of the standard base64 alphabet for a 6-bit value.
pub open spec fn base64_digit(v: int) -> char {
    if v < 26 {
        (65 + v) as u8 as char
    } else if v < 52 {
        (97 + v - 26) as u8 as char
    } else if v < 62 {
        (48 + v - 52) as u8 as char
    } else if v == 62 {
        '+'
    } else {
        '/'
    }
}

/// The standard, padded base64 text of a byte sequence: each group of three
/// bytes becomes four characters, and a last group of one or two bytes is
/// completed with `=`.
pub open spec fn base64_text(bytes: Seq<u8>) -> Seq<char>
    decreases bytes.len(),
{
    if bytes.len() == 0 {
        Seq::<char>::empty()
    } else if bytes.len() == 1 {
        let b0 = bytes[0] as int;
        seq![base64_digit(b0 / 4), base64_digit((b0 % 4) * 16), '=', '=']
    } else if bytes.len() == 2 {
        let (b0, b1) = (bytes[0] as int, bytes[1] as int);
        seq![base64_digit(b0 / 4), base64_digit((b0 % 4) * 16 + b1 / 16), base64_digit((b1 % 16) * 4), '=']
    } else {
        let (b0, b1, b2) = (bytes[0] as int, bytes[1] as int, bytes[2] as int);
        seq![
            base64_digit(b0 / 4),
            base64_digit((b0 % 4) * 16 + b1 / 16),
            base64_digit((b1 % 16) * 4 + b2 / 64),
            base64_digit(b2 % 64),
        ] + base64_text(bytes.subrange(3, bytes.len() as int))
    }
}

/// AES-256-GCM with empty associated data: the ciphertext of `plaintext`
/// under `key` and `nonce`, followed by the 16-byte tag.
pub uninterp spec fn aes256gcm_seal(key: Seq<u8>, nonce: Seq<u8>, plaintext: Seq<u8>) -> Seq<u8>;

/// Whether `len` bytes fit in a base64 text whose length is a `usize`.
pub open spec fn base64_fits(len: int) -> bool {
    len / 3 * 4 + 4 <= usize::MAX
}

/// Distinct 6-bit values have distinct base64 characters, none of them `=`.
proof fn lemma_base64_digit(v: int, w: int)
    requires
        0 <= v < 64,
        0 <= w < 64,
    ensures
        base64_digit(v) != '=',
        base64_digit(v) == base64_digit(w) ==> v == w,
{
    let c = base64_digit(v);
    let d = base64_digit(w);
    assert(c as u32 != 61);
    if c == d {
        assert(c as u32 == d as u32);
    }
}

/// The base64 text of `n` bytes has `4 * ceil(n / 3)` characters.
proof fn lemma_base64_len(b: Seq<u8>)
    ensures
        base64_text(b).len() == (b.len() + 2) / 3 * 4,
    decreases b.len(),
{
    if b.len() >= 3 {
        lemma_base64_len(b.subrange(3, b.len() as int));
    }
}

/// Distinct byte sequences have distinct base64 texts.
pub proof fn lemma_base64_injective(a: Seq<u8>, b: Seq<u8>)
    requires
        base64_text(a) == base64_text(b),
    ensures
        a == b,
    decreases a.len(),
{
    lemma_base64_len(a);
    lemma_base64_len(b);
    let t = base64_text(a);
    if a.len() == 0 {
        assert(b.len() == 0);
        assert(a =~= b);
        return;
    }
    assert(b.len() > 0);
    let (a0, a1, a2) = (a[0] as int, if a.len() > 1 { a[1] as int } else { 0 }, if a.len() > 2 { a[2] as int } else { 0 });
    let (b0, b1, b2) = (b[0] as int, if b.len() > 1 { b[1] as int } else { 0 }, if b.len() > 2 { b[2] as int } else { 0 });
    lemma_base64_digit(a0 / 4, b0 / 4);
    lemma_base64_digit((a0 % 4) * 16 + a1 / 16, (b0 % 4) * 16 + b1 / 16);
    lemma_base64_digit((a1 % 16) * 4 + a2 / 64, (b1 % 16) * 4 + b2 / 64);
    lemma_base64_digit(a2 % 64, b2 % 64);
    lemma_base64_digit((a0 % 4) * 16, (b0 % 4) * 16);
    lemma_base64_digit((a1 % 16) * 4, (b1 % 16) * 4);
    // The padding tells the length of the last group apart.
    assert(t.len() >= 4);
    if a.len() == 1 || a.len() == 2 || b.len() == 1 || b.len() == 2 {
        assert(a.len() == b.len()) by {
            if a.len() != b.len() {
                assert(t[3] == base64_text(a)[3]);
                assert(t[3] == base64_text(b)[3]);
                assert(t[2] == base64_text(b)[2]);
            }
        }
    }
    if a.len() >= 3 && b.len() >= 3 {
        let ra = a.subrange(3, a.len() as int);
        let rb = b.subrange(3, b.len() as int);
        let ha = seq![
            base64_digit(a0 / 4),
            base64_digit((a0 % 4) * 16 + a1 / 16),
            base64_digit((a1 % 16) * 4 + a2 / 64),
            base64_digit(a2 % 64),
        ];
        let hb = seq![
            base64_digit(b0 / 4),
            base64_digit((b0 % 4) * 16 + b1 / 16),
            base64_digit((b1 % 16) * 4 + b2 / 64),
            base64_digit(b2 % 64),
        ];
        assert(t == ha + base64_text(ra));
        assert(t == hb + base64_text(rb));
        assert(t[0] == ha[0] && t[0] == hb[0]);
        assert(t[1] == ha[1] && t[1] == hb[1]);
        assert(t[2] == ha[2] && t[2] == hb[2]);
        assert(t[3] == ha[3] && t[3] == hb[3]);

        assert(a0 == b0 && a1 == b1 && a2 == b2) by (nonlinear_arith)
            requires
                0 <= a0 < 256, 0 <= a1 < 256, 0 <= a2 < 256,
                0 <= b0 < 256, 0 <= b1 < 256, 0 <= b2 < 256,
                a0 / 4 == b0 / 4,
                (a0 % 4) * 16 + a1 / 16 == (b0 % 4) * 16 + b1 / 16,
                (a1 % 16) * 4 + a2 / 64 == (b1 % 16) * 4 + b2 / 64,
                a2 % 64 == b2 % 64;
        assert(base64_text(ra) =~= t.subrange(4, t.len() as int));
        assert(base64_text(rb) =~= t.subrange(4, t.len() as int));
        lemma_base64_injective(ra, rb);
        assert(a =~= seq![a[0], a[1], a[2]] + ra);
        assert(b =~= seq![b[0], b[1], b[2]] + rb);
    } else if a.len() == 2 {
        assert(b.len() == 2);
        assert(t[0] == base64_digit(a0 / 4) && t[0] == base64_digit(b0 / 4));
        assert(t[1] == base64_digit((a0 % 4) * 16 + a1 / 16) && t[1] == base64_digit((b0 % 4) * 16 + b1 / 16));
        assert(t[2] == base64_digit((a1 % 16) * 4) && t[2] == base64_digit((b1 % 16) * 4));
        assert(a0 == b0 && a1 == b1) by (nonlinear_arith)
            requires
                0 <= a0 < 256, 0 <= a1 < 256, 0 <= b0 < 256, 0 <= b1 < 256,
                a0 / 4 == b0 / 4,
                (a0 % 4) * 16 + a1 / 16 == (b0 % 4) * 16 + b1 / 16,
                (a1 % 16) * 4 == (b1 % 16) * 4;
        assert(a =~= b);
    } else {
        assert(a.len() == 1 && b.len() == 1);
        assert(t[0] == base64_digit(a0 / 4) && t[0] == base64_digit(b0 / 4));
        assert(t[1] == base64_digit((a0 % 4) * 16) && t[1] == base64_digit((b0 % 4) * 16));
        assert(a0 == b0) by (nonlinear_arith)
            requires
                0 <= a0 < 256, 0 <= b0 < 256,
                a0 / 4 == b0 / 4,
                (a0 % 4) * 16 == (b0 % 4) * 16;
        assert(a =~= b);
    }
}

/// The key that seals a record of `identifier` with this record salt.
pub open spec fn record_key(identifier: Seq<char>, master_salt: Seq<u8>, record_salt: Seq<u8>) -> Seq<u8> {
    argon2id_key(encode_utf8(identifier), master_salt + record_salt)
}

/// Whether `rec` is `plaintext` sealed for `identifier` under the master salt,
/// with this nonce and this record salt.
pub open spec fn sealed_with(
    rec: RecordText,
    master_salt: Seq<u8>,
    identifier: Seq<char>,
    nonce: Seq<u8>,
    record_salt: Seq<u8>,
    plaintext: Seq<char>,
) -> bool {
    &&& nonce.len() == NONCE_LEN
    &&& record_salt.len() == RECORD_SALT_LEN
    &&& encode_utf8(identifier).len() <= MAX_INPUT_LEN
    &&& rec.nonce == base64_text(nonce)
    &&& rec.salt == base64_text(record_salt)
    &&& rec.ciphertext == base64_text(
        aes256gcm_seal(record_key(identifier, master_salt, record_salt), nonce, encode_utf8(plaintext)),
    )
    &&& aes256gcm_seal(record_key(identifier, master_salt, record_salt), nonce, encode_utf8(plaintext)).len()
        == encode_utf8(plaintext).len() + TAG_LEN
}

/// Whether `rec` is `plaintext` sealed for `identifier` under the master salt,
/// with some nonce and some record salt.
pub open spec fn is_sealing_of(
    rec: RecordText,
    master_salt: Seq<u8>,
    identifier: Seq<char>,
    plaintext: Seq<char>,
) -> bool {
    exists|nonce: Seq<u8>, record_salt: Seq<u8>|
        sealed_with(rec, master_salt, identifier, nonce, record_salt, plaintext)
}

/// Whether a plaintext can be sealed for `identifier`: the name fits the key
/// derivation, and the plaintext fits AES-GCM and a base64 text.
pub open spec fn sealable(identifier: Seq<char>, plaintext: Seq<char>) -> bool {
    &&& encode_utf8(identifier).len() <= MAX_INPUT_LEN
    &&& encode_utf8(plaintext).len() <= MAX_PLAINTEXT_LEN
    &&& base64_fits(encode_utf8(plaintext).len() + TAG_LEN)
}

#[verifier::external_type_specification]
#[verifier::external_body]
pub struct ExAeadError(aes_gcm::Error);

#[verifier::external_type_specification]
#[verifier::external_body]
pub struct ExDecodeError(base64::DecodeError);

/// Relies on base64's `STANDARD.encode`, which panics only when the output
/// length overflows `usize`.
#[verifier::external_body]
fn base64_encode(bytes: &[u8]) -> (r: String)
    requires
        base64_fits(bytes@.len() as int),
    ensures
        r@ == base64_text(bytes@),
{
    base64::engine::general_purpose::STANDARD.encode(bytes)
}

/// Relies on base64's `STANDARD.decode`: padding and trailing bits must be
/// canonical, so it accepts exactly the texts that `STANDARD.encode` writes.
#[verifier::external_body]
fn base64_decode(text: &str) -> (r: Result<Vec<u8>, base64::DecodeError>)
    ensures
        r is Ok ==> base64_text(r->Ok_0@) == text@,
        forall|b: Seq<u8>| #[trigger] base64_text(b) == text@ ==> (r is Ok && r->Ok_0@ == b),
{
    base64::engine::general_purpose::STANDARD.decode(text)
}

/// Relies on aes-gcm's `Aes256Gcm::encrypt` with empty associated data: it
/// fails only on a plaintext longer than `P_MAX`, and appends a 16-byte tag.
#[verifier::external_body]
fn aes_gcm_encrypt(key: &[u8], nonce: &[u8], plaintext: &[u8]) -> (r: Result<Vec<u8>, aes_gcm::Error>)
    requires
        key@.len() == 32,
        nonce@.len() == NONCE_LEN,
    ensures
        r is Ok <==> plaintext@.len() <= MAX_PLAINTEXT_LEN,
        r is Ok ==> r->Ok_0@ == aes256gcm_seal(key@, nonce@, plaintext@),
        r is Ok ==> r->Ok_0@.len() == plaintext@.len() + TAG_LEN,
{
    let cipher = aes_gcm::Aes256Gcm::new(aes_gcm::Key::<aes_gcm::Aes256Gcm>::from_slice(key));
    cipher.encrypt(aes_gcm::Nonce::from_slice(nonce), plaintext)
}

/// Relies on aes-gcm's `Aes256Gcm::decrypt` with empty associated data: it
/// succeeds exactly when the tag authenticates the ciphertext, and then returns
/// the one plaintext whose sealing is that ciphertext.
#[verifier::external_body]
fn aes_gcm_decrypt(key: &[u8], nonce: &[u8], ciphertext: &[u8]) -> (r: Result<Vec<u8>, aes_gcm::Error>)
    requires
        key@.len() == 32,
        nonce@.len() == NONCE_LEN,
    ensures
        r is Ok ==> aes256gcm_seal(key@, nonce@, r->Ok_0@) == ciphertext@,
        r is Ok ==> ciphertext@.len() == r->Ok_0@.len() + TAG_LEN,
        forall|p: Seq<u8>|
            #[trigger] aes256gcm_seal(key@, nonce@, p) == ciphertext@ ==> (r is Ok && r->Ok_0@ == p),
{
    let cipher = aes_gcm::Aes256Gcm::new(aes_gcm::Key::<aes_gcm::Aes256Gcm>::from_slice(key));
    cipher.decrypt(aes_gcm::Nonce::from_slice(nonce), ciphertext)
}

/// Relies on `String::from_utf8`: it succeeds exactly on valid UTF-8, and the
/// string holds those bytes.
#[verifier::external_body]
fn string_from_utf8(bytes: Vec<u8>) -> (r: Option<String>)
    ensures
        r is Some <==> valid_utf8(bytes@),
        r is Some ==> encode_utf8(r->0@) == bytes@,
{
    String::from_utf8(bytes).ok()
}

/// The concatenation of two byte slices.
fn concat_bytes(a: &[u8], b: &[u8]) -> (r: Vec<u8>)
    ensures
        r@ == a@ + b@,
{
    let mut r: Vec<u8> = Vec::new();
    let mut i: usize = 0;
    while i < a.len()
        invariant
            i <= a@.len(),
            r@ == a@.subrange(0, i as int),
        decreases a@.len() - i,
    {
        r.push(a[i]);
        i = i + 1;
        assert(r@ =~= a@.subrange(0, i as int));
    }
    let mut j: usize = 0;
    while j < b.len()
        invariant
            j <= b@.len(),
            r@ == a@ + b@.subrange(0, j as int),
        decreases b@.len() - j,
    {
        r.push(b[j]);
        j = j + 1;
        assert(r@ =~= a@ + b@.subrange(0, j as int));
    }
    assert(a@ =~= a@.subrange(0, a@.len() as int));
    assert(b@ =~= b@.subrange(0, b@.len() as int));
    r
}

/// Seals `plaintext` for `identifier` with the given nonce and record salt:
/// the key is derived from the master salt followed by the record salt, and
/// the plaintext is encrypted under AES-256-GCM.
pub fn seal_with(
    plaintext: &str,
    master_salt: &[u8],
    identifier: &str,
    nonce: &[u8],
    record_salt: &[u8],
) -> (r: Result<EncryptedData, VaultError>)
    requires
        master_salt@.len() == MASTER_SALT_LEN,
        nonce@.len() == NONCE_LEN,
        record_salt@.len() == RECORD_SALT_LEN,
    ensures
        r is Ok <==> sealable(identifier@, plaintext@),
        r is Ok ==> sealed_with(r->Ok_0@, master_salt@, identifier@, nonce@, record_salt@, plaintext@),
        r is Err ==> r->Err_0 == VaultError::EncryptionError,
{
    let combined = concat_bytes(master_salt, record_salt);
    let key = match derive_key(identifier, combined.as_slice()) {
        Ok(k) => k,
        Err(e) => return Err(e),
    };
    let bytes = plaintext.as_bytes();
    let sealed = match aes_gcm_encrypt(&key, nonce, bytes) {
        Ok(c) => c,
        Err(_) => return Err(VaultError::EncryptionError),
    };
    if sealed.len() / 3 > (usize::MAX - 4) / 4 {
        assert(!base64_fits(sealed@.len() as int)) by (nonlinear_arith)
            requires sealed@.len() / 3 > (usize::MAX - 4) / 4;
        return Err(VaultError::EncryptionError);
    }
    assert(base64_fits(sealed@.len() as int)) by (nonlinear_arith)
        requires sealed@.len() / 3 <= (usize::MAX - 4) / 4;
    let rec = EncryptedData {
        ciphertext: base64_encode(sealed.as_slice()),
        nonce: base64_encode(nonce),
        salt: base64_encode(record_salt),
    };
    Ok(rec)
}

/// Seals `plaintext` for `identifier` with a fresh record salt and a fresh
/// nonce drawn from the operating system's generator.
pub fn encrypt(plaintext: &str, master_salt: &[u8], identifier: &str) -> (r: Result<EncryptedData, VaultError>)
    requires
        master_salt@.len() == MASTER_SALT_LEN,
    ensures
        r is Ok ==> is_sealing_of(r->Ok_0@, master_salt@, identifier@, plaintext@),
        r is Err ==> r->Err_0 == VaultError::EntropyError || (r->Err_0 == VaultError::EncryptionError
            && !sealable(identifier@, plaintext@)),
{
    let record_salt = match random_bytes(RECORD_SALT_LEN) {
        Ok(v) => v,
        Err(e) => return Err(e),
    };
    let nonce = match random_bytes(NONCE_LEN) {
        Ok(v) => v,
        Err(e) => return Err(e),
    };
    let r = seal_with(plaintext, master_salt, identifier, nonce.as_slice(), record_salt.as_slice());
    proof {
        if r is Ok {
            assert(sealed_with(r->Ok_0@, master_salt@, identifier@, nonce@, record_salt@, plaintext@));
        }
    }
    r
}

/// A record that is no sealing under any nonce, record salt and plaintext is
/// a sealing of no plaintext.
proof fn lemma_no_sealing(rec: RecordText, master_salt: Seq<u8>, identifier: Seq<char>)
    requires
        forall|n: Seq<u8>, s: Seq<u8>, p: Seq<char>|
            !#[trigger] sealed_with(rec, master_salt, identifier, n, s, p),
    ensures
        forall|p: Seq<char>| !is_sealing_of(rec, master_salt, identifier, p),
{
}

/// Opens a record sealed for `identifier`: any decoding failure and any
/// authentication failure alike give `DecryptionError`, never partial data.
pub fn decrypt(encrypted: &EncryptedData, master_salt: &[u8], identifier: &str) -> (r: Result<String, VaultError>)
    requires
        master_salt@.len() == MASTER_SALT_LEN,
    ensures
        r is Ok ==> is_sealing_of(encrypted@, master_salt@, identifier@, r->Ok_0@),
        r is Err ==> r->Err_0 == VaultError::DecryptionError,
        forall|p: Seq<char>| #[trigger] is_sealing_of(encrypted@, master_salt@, identifier@, p)
            ==> (r is Ok && r->Ok_0@ == p),
{
    let rec = Ghost(encrypted@);
    let ms = Ghost(master_salt@);
    let id = Ghost(identifier@);
    let record_salt = match base64_decode(encrypted.salt.as_str()) {
        Ok(v) => v,
        Err(_) => {
            proof { lemma_no_sealing(rec@, ms@, id@); }
            return Err(VaultError::DecryptionError);
        },
    };
    if record_salt.len() != RECORD_SALT_LEN {
        proof { lemma_no_sealing(rec@, ms@, id@); }
        return Err(VaultError::DecryptionError);
    }
    let combined = concat_bytes(master_salt, record_salt.as_slice());
    let key = match derive_key(identifier, combined.as_slice()) {
        Ok(k) => k,
        Err(_) => {
            proof { lemma_no_sealing(rec@, ms@, id@); }
            return Err(VaultError::DecryptionError);
        },
    };
    let nonce = match base64_decode(encrypted.nonce.as_str()) {
        Ok(v) => v,
        Err(_) => {
            proof { lemma_no_sealing(rec@, ms@, id@); }
            return Err(VaultError::DecryptionError);
        },
    };
    if nonce.len() != NONCE_LEN {
        proof { lemma_no_sealing(rec@, ms@, id@); }
        return Err(VaultError::DecryptionError);
    }
    let ciphertext = match base64_decode(encrypted.ciphertext.as_str()) {
        Ok(v) => v,
        Err(_) => {
            proof { lemma_no_sealing(rec@, ms@, id@); }
            return Err(VaultError::DecryptionError);
        },
    };
    let opened = match aes_gcm_decrypt(&key, nonce.as_slice(), ciphertext.as_slice()) {
        Ok(b) => b,
        Err(_) => {
            proof { lemma_no_sealing(rec@, ms@, id@); }
            return Err(VaultError::DecryptionError);
        },
    };
    match string_from_utf8(opened) {
        Some(text) => {
            assert(sealed_with(rec@, ms@, id@, nonce@, record_salt@, text@));
            assert forall|p: Seq<char>| #[trigger] is_sealing_of(rec@, ms@, id@, p) implies p == text@ by {
                let (n, s) = choose|n: Seq<u8>, s: Seq<u8>| sealed_with(rec@, ms@, id@, n, s, p);
                assert(base64_text(n) == encrypted.nonce@);
                assert(base64_text(s) == encrypted.salt@);
                let c = aes256gcm_seal(record_key(id@, ms@, s), n, encode_utf8(p));
                assert(base64_text(c) == encrypted.ciphertext@);
                assert(aes256gcm_seal(key@, nonce@, encode_utf8(p)) == ciphertext@);
                encode_utf8_decode_utf8(p);
                encode_utf8_decode_utf8(text@);
            }
            Ok(text)
        },
        None => {
            proof {
                broadcast use vstd::utf8::encode_utf8_valid_utf8;
                lemma_no_sealing(rec@, ms@, id@);
            }
            Err(VaultError::DecryptionError)
        },
    }
}

} // verus!
