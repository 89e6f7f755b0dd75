//! ChaCha20-Poly1305 around the bytes of a picture: one key and one nonce for
//! the life of a [`Cipher`], and a [`Key`] to carry both to whoever decrypts.

use chacha20poly1305::aead::{Aead, OsRng};
use chacha20poly1305::{AeadCore, ChaCha20Poly1305, KeyInit, Nonce};
use vstd::prelude::*;

verus! {

/// Bytes in a key.
pub const KEY_SIZE: usize = 32;

/// Bytes in a nonce.
pub const NONCE_SIZE: usize = 12;

/// Bytes that the authentication tag adds to a ciphertext.
pub const TAG_SIZE: usize = 16;

/// The longest plaintext that one nonce encrypts: 2^32 - 2 blocks of 64 bytes.
/// The cipher counts its blocks in 32 bits and spends the first on the key of
/// the tag.
pub const MAX_PLAINTEXT_LEN: u64 = 274_877_906_816;

/// Decryption found the ciphertext, the key or the nonce to be other than
/// those of the encryption.
#[derive(Debug, Clone, Copy, PartialEq, Eq)]
pub struct AuthenticationError;

/// The ciphertext, tag included, that ChaCha20-Poly1305 makes of `plaintext`
/// under `key` and `nonce`, without associated data.
pub uninterp spec fn aead_seal(key: Seq<u8>, nonce: Seq<u8>, plaintext: Seq<u8>) -> Seq<u8>;

/// The plaintext that ChaCha20-Poly1305 finds in `ciphertext` under `key` and
/// `nonce`, or `None` where the tag does not hold.
pub uninterp spec fn aead_open(key: Seq<u8>, nonce: Seq<u8>, ciphertext: Seq<u8>) -> Option<
    Seq<u8>,
>;

/// A key and a nonce, as contracts see them.
#[verifier::ext_equal]
pub struct KeyView {
    pub key: Seq<u8>,
    pub nonce: Seq<u8>,
}

impl KeyView {
    /// The key and the nonce have the lengths that the cipher takes.
    pub open spec fn valid(self) -> bool {
        self.key.len() == KEY_SIZE && self.nonce.len() == NONCE_SIZE
    }

    /// The ciphertext of `plaintext` under this key and nonce.
    pub open spec fn spec_encrypt(self, plaintext: Seq<u8>) -> Seq<u8> {
        aead_seal(self.key, self.nonce, plaintext)
    }

    /// The plaintext of `ciphertext` under this key and nonce, where it is
    /// authentic.
    pub open spec fn spec_decrypt(self, ciphertext: Seq<u8>) -> Result<
        Seq<u8>,
        AuthenticationError,
    > {
        if !openable(ciphertext.len()) {
            Err(AuthenticationError)
        } else {
            match aead_open(self.key, self.nonce, ciphertext) {
                Some(plaintext) => Ok(plaintext),
                None => Err(AuthenticationError),
            }
        }
    }
}

/// A plaintext short enough for one nonce, and with its tag no more than a
/// vector holds.
pub open spec fn sealable(len: nat) -> bool {
    len <= MAX_PLAINTEXT_LEN && len + TAG_SIZE <= isize::MAX
}

/// A ciphertext no longer than the longest plaintext and its tag: no longer
/// one can be authentic.
pub open spec fn openable(len: nat) -> bool {
    len <= MAX_PLAINTEXT_LEN + TAG_SIZE
}

/// Whether a plaintext of `len` bytes is [`sealable`].
pub fn is_sealable(len: usize) -> (b: bool)
    ensures
        b == sealable(len as nat),
{
    len as u64 <= MAX_PLAINTEXT_LEN && len <= isize::MAX as usize - TAG_SIZE
}

/// The persistent form of a cipher: its key and its nonce.
pub struct Key {
    key: Vec<u8>,
    nonce: Vec<u8>,
}

impl View for Key {
    type V = KeyView;

    closed spec fn view(&self) -> KeyView {
        KeyView { key: self.key@, nonce: self.nonce@ }
    }
}

impl Key {
    /// A key artifact of the given bytes, whatever their lengths.
    pub fn new(key: Vec<u8>, nonce: Vec<u8>) -> (artifact: Key)
        ensures
            artifact@.key == key@,
            artifact@.nonce == nonce@,
    {
        Key { key, nonce }
    }

    /// The key's bytes.
    pub fn key(&self) -> (key: &Vec<u8>)
        ensures
            key@ == self@.key,
    {
        &self.key
    }

    /// The nonce's bytes.
    pub fn nonce(&self) -> (nonce: &Vec<u8>)
        ensures
            nonce@ == self@.nonce,
    {
        &self.nonce
    }

    /// Whether a cipher can be loaded from this artifact.
    pub fn is_valid(&self) -> (valid: bool)
        ensures
            valid == self@.valid(),
    {
        self.key.len() == KEY_SIZE && self.nonce.len() == NONCE_SIZE
    }
}

/// `chacha20poly1305::Error`, the one error of the cipher; it tells nothing
/// beyond that there was one.
#[verifier::external_type_specification]
#[verifier::external_body]
pub struct ExAeadError(chacha20poly1305::Error);

/// `ChaCha20Poly1305::generate_key` on the operating system's generator: 32
/// bytes, of which nothing more is known. It panics where the operating
/// system gives no random bytes.
#[verifier::external_body]
fn generate_key() -> (key: Vec<u8>)
    ensures
        key@.len() == KEY_SIZE,
{
    ChaCha20Poly1305::generate_key(&mut OsRng).to_vec()
}

/// `ChaCha20Poly1305::generate_nonce` on the operating system's generator: 12
/// bytes, of which nothing more is known. It panics where the operating
/// system gives no random bytes.
#[verifier::external_body]
fn generate_nonce() -> (nonce: Vec<u8>)
    ensures
        nonce@.len() == NONCE_SIZE,
{
    ChaCha20Poly1305::generate_nonce(&mut OsRng).to_vec()
}

/// `Aead::encrypt` of `ChaCha20Poly1305`: the ciphertext followed by its tag of
/// 16 bytes, which `Aead::decrypt` opens again under the same key and nonce.
/// It fails on a plaintext of 2^32 - 1 blocks of 64 bytes or more and panics
/// on one that needs more than 2^32 - 2 blocks, a last block that is not full
/// counted too; it also panics on a key or nonce of another length, and where
/// plaintext and tag together are more than a vector holds.
#[verifier::external_body]
fn aead_encrypt(key: &Vec<u8>, nonce: &Vec<u8>, plaintext: &[u8]) -> (r: Result<
    Vec<u8>,
    chacha20poly1305::Error,
>)
    requires
        key@.len() == KEY_SIZE,
        nonce@.len() == NONCE_SIZE,
        sealable(plaintext@.len()),
    ensures
        r is Ok,
        r matches Ok(ciphertext) ==> ciphertext@ == aead_seal(key@, nonce@, plaintext@)
            && ciphertext@.len() == plaintext@.len() + TAG_SIZE && aead_open(
            key@,
            nonce@,
            ciphertext@,
        ) == Some(plaintext@),
{
    let cipher = ChaCha20Poly1305::new(chacha20poly1305::Key::from_slice(key));
    cipher.encrypt(Nonce::from_slice(nonce), plaintext)
}

/// `Aead::decrypt` of `ChaCha20Poly1305`: the plaintext where the tag at the
/// end of the ciphertext holds under the key and the nonce, an error where it
/// does not, and so on every ciphertext shorter than a tag. It panics on a
/// key or nonce of another length, and on an authentic ciphertext that needs
/// more than 2^32 - 2 blocks of 64 bytes before its tag.
#[verifier::external_body]
fn aead_decrypt(key: &Vec<u8>, nonce: &Vec<u8>, ciphertext: &[u8]) -> (r: Result<
    Vec<u8>,
    chacha20poly1305::Error,
>)
    requires
        key@.len() == KEY_SIZE,
        nonce@.len() == NONCE_SIZE,
        openable(ciphertext@.len()),
    ensures
        match r {
            Ok(plaintext) => aead_open(key@, nonce@, ciphertext@) == Some(plaintext@),
            Err(_) => aead_open(key@, nonce@, ciphertext@) is None,
        },
        ciphertext@.len() < TAG_SIZE ==> r is Err,
{
    let cipher = ChaCha20Poly1305::new(chacha20poly1305::Key::from_slice(key));
    cipher.decrypt(Nonce::from_slice(nonce), ciphertext)
}

/// A key and a nonce, ready to encrypt and decrypt.
///
/// The nonce stays the same for every call. ChaCha20-Poly1305 protects
/// nothing once two plaintexts have been encrypted under one key and nonce, so
/// call [`Cipher::encrypt`] on one cipher once.
pub struct Cipher {
    key: Vec<u8>,
    nonce: Vec<u8>,
}

impl View for Cipher {
    type V = KeyView;

    closed spec fn view(&self) -> KeyView {
        KeyView { key: self.key@, nonce: self.nonce@ }
    }
}

impl Default for Cipher {
    fn default() -> (cipher: Cipher)
        ensures
            cipher@.valid(),
    {
        Cipher::new()
    }
}

impl Cipher {
    #[verifier::type_invariant]
    spec fn well_formed(self) -> bool {
        self.key@.len() == KEY_SIZE && self.nonce@.len() == NONCE_SIZE
    }

    /// A cipher with a fresh random key and a fresh random nonce.
    pub fn new() -> (cipher: Cipher)
        ensures
            cipher@.valid(),
    {
        let key = generate_key();
        let nonce = generate_nonce();
        Cipher { key, nonce }
    }

    /// A cipher with the given key and a fresh random nonce.
    pub fn with_key(key: Vec<u8>) -> (cipher: Cipher)
        requires
            key@.len() == KEY_SIZE,
        ensures
            cipher@.key == key@,
            cipher@.valid(),
    {
        let nonce = generate_nonce();
        Cipher { key, nonce }
    }

    /// The cipher that `key_struct` was taken from.
    pub fn load(key_struct: &Key) -> (cipher: Cipher)
        requires
            key_struct@.valid(),
        ensures
            cipher@ == key_struct@,
    {
        Cipher { key: key_struct.key.clone(), nonce: key_struct.nonce.clone() }
    }

    /// The key and the nonce, to be kept for decryption.
    pub fn get_key_struct(&self) -> (key_struct: Key)
        ensures
            key_struct@ == self@,
            key_struct@.valid(),
    {
        proof {
            use_type_invariant(self);
        }
        Key { key: self.key.clone(), nonce: self.nonce.clone() }
    }

    /// Encrypts `buf` and appends the authentication tag.
    pub fn encrypt(&self, buf: &[u8]) -> (ciphertext: Vec<u8>)
        requires
            sealable(buf@.len()),
        ensures
            ciphertext@ == self@.spec_encrypt(buf@),
            ciphertext@.len() == buf@.len() + TAG_SIZE,
            self@.spec_decrypt(ciphertext@) == Ok::<Seq<u8>, AuthenticationError>(buf@),
    {
        proof {
            use_type_invariant(self);
        }
        match aead_encrypt(&self.key, &self.nonce, buf) {
            Ok(ciphertext) => ciphertext,
            // The cipher refuses no plaintext that is `sealable`.
            Err(_) => Vec::new(),
        }
    }

    /// Decrypts `buf`, which ends in the authentication tag. A buffer shorter
    /// than a tag, or longer than the longest plaintext and its tag, is not
    /// authentic.
    pub fn decrypt(&self, buf: &[u8]) -> (r: Result<Vec<u8>, AuthenticationError>)
        ensures
            match r {
                Ok(plaintext) => self@.spec_decrypt(buf@) == Ok::<Seq<u8>, AuthenticationError>(
                    plaintext@,
                ),
                Err(_) => self@.spec_decrypt(buf@) is Err,
            },
            buf@.len() < TAG_SIZE ==> r is Err,
    {
        proof {
            use_type_invariant(self);
        }
        if buf.len() as u64 > MAX_PLAINTEXT_LEN + TAG_SIZE as u64 {
            return Err(AuthenticationError);
        }
        match aead_decrypt(&self.key, &self.nonce, buf) {
            Ok(plaintext) => Ok(plaintext),
            Err(_) => Err(AuthenticationError),
        }
    }
}

} // verus!
