//! The key bundle: an encryption key and an HMAC key, with AES-256 in CBC
//! mode and HMAC-SHA-256 behind trusted calls.

use crate::codec::{base64_bytes, base64_decode, base64_encode, base64_text, MAX_ENCODE_LEN};
use crate::error::{ErrorKind, ErrorView};
use crate::platform::random_bytes;
use aes::cipher::block_padding::Pkcs7;
use aes::cipher::{BlockDecryptMut, BlockEncryptMut, KeyIvInit};
use hmac::Mac;
use vstd::prelude::*;
use vstd::utf8::{decode_utf8, encode_utf8, valid_utf8};

verus! {

/// The length of each of the two keys, in bytes.
pub const KEY_LEN: usize = 32;

/// The length of an initialisation vector, in bytes.
pub const IV_LEN: usize = 16;

/// The ciphertext of AES-256 in CBC mode with PKCS#7 padding.
pub uninterp spec fn aes256_cbc_encrypted(key: Seq<u8>, iv: Seq<u8>, plain: Seq<u8>) -> Seq<u8>;

/// The plaintext that AES-256 in CBC mode reads from a ciphertext, if the
/// padding it finds is sound.
pub uninterp spec fn aes256_cbc_decrypted(key: Seq<u8>, iv: Seq<u8>, cipher: Seq<u8>) -> Option<Seq<u8>>;

/// The tag of HMAC-SHA-256.
pub uninterp spec fn hmac_sha256(key: Seq<u8>, data: Seq<u8>) -> Seq<u8>;

/// Calls `cbc::Encryptor::<aes::Aes256>::new_from_slices`, which takes a
/// key of 32 bytes and a vector of 16 and refuses other lengths, and then
/// `encrypt_padded_vec_mut` with PKCS#7. The ciphertext is named. The
/// buffer that the call allocates is a block longer than the input, so
/// the input is bounded.
#[verifier::external_body]
fn aes_encrypt(key: &[u8], iv: &[u8], plain: &[u8]) -> (out: Option<Vec<u8>>)
    requires
        plain@.len() <= MAX_ENCODE_LEN,
    ensures
        out is Some ==> key@.len() == KEY_LEN,
        out is Some ==> iv@.len() == IV_LEN,
        key@.len() == KEY_LEN ==> (iv@.len() == IV_LEN ==> out is Some),
        out matches Some(v) ==> v@ == aes256_cbc_encrypted(key@, iv@, plain@),
{
    cbc::Encryptor::<aes::Aes256>::new_from_slices(key, iv).ok().map(|c| c.encrypt_padded_vec_mut::<Pkcs7>(plain))
}

/// Calls `cbc::Decryptor::<aes::Aes256>::new_from_slices` and then
/// `decrypt_padded_vec_mut` with PKCS#7, which fails on a length that is
/// no multiple of the block or on bad padding. The plaintext is named;
/// beside the name stands the fact that decryption under the same key and
/// vector reads back what encryption wrote.
#[verifier::external_body]
fn aes_decrypt(key: &[u8], iv: &[u8], cipher: &[u8]) -> (out: Option<Vec<u8>>)
    ensures
        out is Some ==> key@.len() == KEY_LEN,
        out is Some ==> iv@.len() == IV_LEN,
        key@.len() == KEY_LEN ==> (iv@.len() == IV_LEN ==> (out is Some <==> aes256_cbc_decrypted(
            key@,
            iv@,
            cipher@,
        ) is Some)),
        out matches Some(v) ==> aes256_cbc_decrypted(key@, iv@, cipher@) == Some(v@),
        forall|p: Seq<u8>|
            out matches Some(v) ==> (#[trigger] aes256_cbc_encrypted(key@, iv@, p) == cipher@ ==> v@ == p),
        forall|p: Seq<u8>|
            out == None::<Vec<u8>> ==> (key@.len() == KEY_LEN ==> (iv@.len() == IV_LEN ==> #[trigger] aes256_cbc_encrypted(
                key@,
                iv@,
                p,
            ) != cipher@)),
{
    cbc::Decryptor::<aes::Aes256>::new_from_slices(key, iv).ok()?.decrypt_padded_vec_mut::<Pkcs7>(cipher).ok()
}

/// Calls `Hmac::<Sha256>::new_from_slice`, which takes a key of any
/// length, then `update` and `finalize`. The tag is named; it has the 32
/// bytes of a SHA-256 digest.
#[verifier::external_body]
fn hmac_tag(key: &[u8], data: &[u8]) -> (out: Option<Vec<u8>>)
    ensures
        out is Some,
        out matches Some(tag) ==> tag@ == hmac_sha256(key@, data@),
        out matches Some(tag) ==> tag@.len() == 32,
{
    hmac::Hmac::<sha2::Sha256>::new_from_slice(key).ok().map(|mut m| {
        m.update(data);
        m.finalize().into_bytes().to_vec()
    })
}

/// Calls `Hmac::<Sha256>::verify_slice`, which compares the tag it
/// computes with the given one in constant time and accepts only an equal
/// tag of full length.
#[verifier::external_body]
fn hmac_verify(key: &[u8], data: &[u8], tag: &[u8]) -> (ok: bool)
    ensures
        ok == (tag@ == hmac_sha256(key@, data@)),
{
    hmac::Hmac::<sha2::Sha256>::new_from_slice(key).ok().map(|mut m| {
        m.update(data);
        m.verify_slice(tag).is_ok()
    }).unwrap_or(false)
}

/// Calls `String::from_utf8`, which accepts exactly the valid UTF-8 byte
/// strings and gives the text they encode.
#[verifier::external_body]
fn utf8_text(bytes: Vec<u8>) -> (out: Option<String>)
    ensures
        out is Some <==> valid_utf8(bytes@),
        out matches Some(s) ==> s@ == decode_utf8(bytes@),
{
    String::from_utf8(bytes).ok()
}

/// The two keys of a bundle, as bytes.
pub struct KeyView {
    pub enc: Seq<u8>,
    pub mac: Seq<u8>,
}

/// A pair of keys, one to encrypt and one to sign, of 32 bytes each.
pub struct KeyBundle {
    enc_key: Vec<u8>,
    mac_key: Vec<u8>,
}

impl View for KeyBundle {
    type V = KeyView;

    closed spec fn view(&self) -> KeyView {
        KeyView { enc: self.enc_key@, mac: self.mac_key@ }
    }
}

/// The tag over `data` under the signing key, in base64.
pub open spec fn hmac_text(key: KeyView, data: Seq<u8>) -> Seq<char> {
    base64_text(hmac_sha256(key.mac, data))
}

/// The given tag text decodes to the tag over `data`.
pub open spec fn hmac_matches(key: KeyView, tag: Seq<char>, data: Seq<u8>) -> bool {
    base64_bytes(tag) == Some(hmac_sha256(key.mac, data))
}

/// The text that decryption yields: the plaintext, if the vector has the
/// right length, the padding is sound and the plaintext is UTF-8.
pub open spec fn decrypted_text(key: KeyView, cipher: Seq<u8>, iv: Seq<u8>) -> Option<Seq<char>> {
    if iv.len() != IV_LEN {
        None
    } else {
        match aes256_cbc_decrypted(key.enc, iv, cipher) {
            Some(plain) => if valid_utf8(plain) {
                Some(decode_utf8(plain))
            } else {
                None
            },
            None => None,
        }
    }
}

impl KeyBundle {
    /// What holds of every bundle: both keys have 32 bytes.
    #[verifier::type_invariant]
    pub closed spec fn wf(&self) -> bool {
        self.enc_key@.len() == KEY_LEN && self.mac_key@.len() == KEY_LEN
    }

    /// A bundle of the two keys; a key of another length than 32 bytes is
    /// refused.
    pub fn new(enc: Vec<u8>, mac: Vec<u8>) -> (r: Result<KeyBundle, ErrorKind>)
        ensures
            enc@.len() == KEY_LEN && mac@.len() == KEY_LEN ==> (r matches Ok(k) && k@ == (KeyView { enc: enc@, mac: mac@ })
                && k.wf()),
            !(enc@.len() == KEY_LEN && mac@.len() == KEY_LEN) ==> (r matches Err(e) && e@ == ErrorView::CryptoFailure),
    {
        if enc.len() != KEY_LEN || mac.len() != KEY_LEN {
            Err(ErrorKind::CryptoFailure)
        } else {
            Ok(KeyBundle { enc_key: enc, mac_key: mac })
        }
    }

    /// The encryption key.
    pub fn encryption_key(&self) -> (k: &[u8])
        ensures
            k@ == self@.enc,
            k@.len() == KEY_LEN,
    {
        proof {
            use_type_invariant(self);
        }
        self.enc_key.as_slice()
    }

    /// The signing key.
    pub fn hmac_key(&self) -> (k: &[u8])
        ensures
            k@ == self@.mac,
            k@.len() == KEY_LEN,
    {
        proof {
            use_type_invariant(self);
        }
        self.mac_key.as_slice()
    }

    /// The tag over `data`, in base64.
    pub fn hmac_string(&self, data: &[u8]) -> (r: Result<String, ErrorKind>)
        ensures
            r matches Ok(tag) && tag@ == hmac_text(self@, data@),
    {
        match hmac_tag(self.mac_key.as_slice(), data) {
            Some(tag) => Ok(base64_encode(tag.as_slice())),
            None => Err(ErrorKind::CryptoFailure),
        }
    }

    /// Whether `expected_hmac` is the base64 text of the tag over the bytes
    /// of `ciphertext_base64`. The tags are compared in constant time. A
    /// text that is no base64 does not match.
    pub fn verify_hmac_string(&self, expected_hmac: &str, ciphertext_base64: &str) -> (r: Result<bool, ErrorKind>)
        ensures
            r matches Ok(ok) && ok == hmac_matches(self@, expected_hmac@, encode_utf8(ciphertext_base64@)),
            forall|data: Seq<u8>|
                expected_hmac@ == #[trigger] hmac_text(self@, data) ==> base64_bytes(expected_hmac@) == Some(
                    hmac_sha256(self@.mac, data),
                ),
    {
        match base64_decode(expected_hmac) {
            Some(tag) => Ok(hmac_verify(self.mac_key.as_slice(), ciphertext_base64.as_bytes(), tag.as_slice())),
            None => Ok(false),
        }
    }

    /// Encrypts `cleartext` under the vector `iv`, which must have 16
    /// bytes; a cleartext beyond the encoder's limit is refused.
    pub fn encrypt_bytes_with_iv(&self, cleartext: &[u8], iv: &[u8]) -> (r: Result<Vec<u8>, ErrorKind>)
        ensures
            iv@.len() == IV_LEN && cleartext@.len() <= MAX_ENCODE_LEN ==> (r matches Ok(v) && v@ == aes256_cbc_encrypted(
                self@.enc,
                iv@,
                cleartext@,
            )),
            !(iv@.len() == IV_LEN && cleartext@.len() <= MAX_ENCODE_LEN) ==> (r matches Err(e) && e@
                == ErrorView::CryptoFailure),
    {
        proof {
            use_type_invariant(self);
        }
        if cleartext.len() > MAX_ENCODE_LEN {
            return Err(ErrorKind::CryptoFailure);
        }
        match aes_encrypt(self.enc_key.as_slice(), iv, cleartext) {
            Some(v) => Ok(v),
            None => Err(ErrorKind::CryptoFailure),
        }
    }

    /// Encrypts `cleartext` under a fresh random vector, and returns the
    /// ciphertext and the vector.
    pub fn encrypt_bytes_rand_iv(&self, cleartext: &[u8]) -> (r: Result<(Vec<u8>, Vec<u8>), ErrorKind>)
        ensures
            cleartext@.len() <= MAX_ENCODE_LEN ==> (r matches Ok(pair) && pair.1@.len() == IV_LEN && pair.0@
                == aes256_cbc_encrypted(self@.enc, pair.1@, cleartext@)),
            cleartext@.len() > MAX_ENCODE_LEN ==> (r matches Err(e) && e@ == ErrorView::CryptoFailure),
    {
        let iv = random_bytes(IV_LEN);
        match self.encrypt_bytes_with_iv(cleartext, iv.as_slice()) {
            Ok(v) => Ok((v, iv)),
            Err(e) => Err(e),
        }
    }

    /// Decrypts `ciphertext` under the vector `iv` and reads the plaintext
    /// as UTF-8. What was encrypted under this bundle and vector comes
    /// back as it was.
    pub fn decrypt(&self, ciphertext: &[u8], iv: &[u8]) -> (r: Result<String, ErrorKind>)
        ensures
            r matches Ok(text) ==> decrypted_text(self@, ciphertext@, iv@) == Some(text@),
            r matches Err(e) ==> decrypted_text(self@, ciphertext@, iv@) is None && e@ == ErrorView::CryptoFailure,
            forall|text: Seq<char>|
                iv@.len() == IV_LEN && ciphertext@ == #[trigger] aes256_cbc_encrypted(self@.enc, iv@, encode_utf8(text))
                    ==> (r matches Ok(got) && got@ == text),
    {
        proof {
            use_type_invariant(self);
        }
        match aes_decrypt(self.enc_key.as_slice(), iv, ciphertext) {
            Some(plain) => {
                proof {
                    assert forall|text: Seq<char>|
                        iv@.len() == IV_LEN && ciphertext@ == #[trigger] aes256_cbc_encrypted(
                            self@.enc,
                            iv@,
                            encode_utf8(text),
                        ) implies valid_utf8(plain@) && decode_utf8(plain@) == text by {
                        assert(plain@ == encode_utf8(text));
                        vstd::utf8::encode_utf8_valid_utf8(text);
                        vstd::utf8::encode_utf8_decode_utf8(text);
                    }
                }
                match utf8_text(plain) {
                    Some(text) => Ok(text),
                    None => Err(ErrorKind::CryptoFailure),
                }
            },
            None => Err(ErrorKind::CryptoFailure),
        }
    }
}

} // verus!
