//! Pictures of encrypted bytes: encryption before the picture is made, and
//! decryption after it has been read.

use crate::decode::{from_rgb, lemma_decode_encode, spec_decode, CorruptImage};
use crate::encode::{encodable, from_slice, spec_encode};
use crate::encryption::{sealable, AuthenticationError, Cipher, KeyView, TAG_SIZE};
use crate::grid::{GridView, PixelGrid};
use vstd::prelude::*;

verus! {

/// Why a picture gave no plaintext.
#[derive(Debug, Clone, Copy, PartialEq, Eq)]
pub enum OpenError {
    /// The picture is none that encoding makes.
    Corrupt(CorruptImage),
    /// The bytes in the picture are not a ciphertext of this key and nonce.
    Unauthentic(AuthenticationError),
}

/// The plaintext in a picture: the bytes that it stands for, decrypted.
pub open spec fn spec_decode_encrypted(view: GridView, key: KeyView) -> Result<Seq<u8>, OpenError> {
    match spec_decode(view) {
        Ok(ciphertext) => match key.spec_decrypt(ciphertext) {
            Ok(plaintext) => Ok(plaintext),
            Err(e) => Err(OpenError::Unauthentic(e)),
        },
        Err(e) => Err(OpenError::Corrupt(e)),
    }
}

/// The picture of `input`, encrypted with `cipher`.
pub fn encode_encrypted(input: &[u8], cipher: &Cipher) -> (image: PixelGrid)
    requires
        sealable(input@.len()),
        encodable((input@.len() + TAG_SIZE) as nat),
    ensures
        image@ == spec_encode(cipher@.spec_encrypt(input@)),
        spec_decode_encrypted(image@, cipher@) == Ok::<Seq<u8>, OpenError>(input@),
{
    let ciphertext = cipher.encrypt(input);
    proof {
        lemma_decode_encode(ciphertext@);
    }
    from_slice(ciphertext.as_slice())
}

/// The plaintext in `input_image`, decrypted with `cipher`.
pub fn decode_encrypted(input_image: &PixelGrid, cipher: &Cipher) -> (r: Result<Vec<u8>, OpenError>)
    ensures
        match r {
            Ok(plaintext) => spec_decode_encrypted(input_image@, cipher@) == Ok::<Seq<u8>, OpenError>(
                plaintext@,
            ),
            Err(e) => spec_decode_encrypted(input_image@, cipher@) == Err::<Seq<u8>, OpenError>(e),
        },
{
    match from_rgb(input_image) {
        Ok(ciphertext) => match cipher.decrypt(ciphertext.as_slice()) {
            Ok(plaintext) => Ok(plaintext),
            Err(e) => Err(OpenError::Unauthentic(e)),
        },
        Err(e) => Err(OpenError::Corrupt(e)),
    }
}

/// A trip through a picture changes nothing for decryption: what a ciphertext
/// decrypts to, or that it does not, is the same before and after.
pub proof fn lemma_decrypt_survives_picture(key: KeyView, ciphertext: Seq<u8>)
    ensures
        spec_decode_encrypted(spec_encode(ciphertext), key) == match key.spec_decrypt(ciphertext) {
            Ok(plaintext) => Ok::<Seq<u8>, OpenError>(plaintext),
            Err(e) => Err(OpenError::Unauthentic(e)),
        },
{
    lemma_decode_encode(ciphertext);
}

} // verus!
