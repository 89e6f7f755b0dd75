//! ANSI X9.23 padding of the last block of a stream: zeros, then one byte that
//! counts the bytes added.

use block_padding::{AnsiX923, RawPadding, UnpadError};
use vstd::prelude::*;

verus! {

/// Why a block could not be unpadded.
#[derive(Debug, Clone, Copy, PartialEq, Eq)]
pub enum PaddingError {
    /// The count in the last byte is zero or larger than the block, a byte
    /// between the data and the count is not zero, or the block is empty or
    /// longer than a one-byte count can describe.
    InvalidPadding,
}

/// Largest block that a one-byte count can describe.
pub const MAX_BLOCK_SIZE: usize = 255;

/// `data` brought to `block_size` bytes: the data, zeros, and in the last byte
/// the number of bytes added. Data that already fills the block is the block.
pub open spec fn spec_pad(data: Seq<u8>, block_size: nat) -> Seq<u8> {
    if data.len() >= block_size {
        data
    } else {
        data + Seq::new((block_size - data.len() - 1) as nat, |i: int| 0u8)
            + seq![(block_size - data.len()) as u8]
    }
}

/// The last byte of `block` counts between one and all of its bytes, and the
/// counted bytes before it are zero.
pub open spec fn valid_padding(block: Seq<u8>) -> bool {
    &&& 1 <= block.len() <= MAX_BLOCK_SIZE
    &&& 1 <= block.last() <= block.len()
    &&& forall|i: int| block.len() - block.last() <= i < block.len() - 1 ==> block[i] == 0
}

/// What is left of `block` without its padding, where the padding is valid.
pub open spec fn spec_unpad(block: Seq<u8>) -> Option<Seq<u8>> {
    if valid_padding(block) {
        Some(block.take(block.len() - block.last()))
    } else {
        None
    }
}

/// `block_padding::UnpadError`, the one error of unpadding; it tells nothing
/// beyond that there was one.
#[verifier::external_type_specification]
#[verifier::external_body]
pub struct ExUnpadError(UnpadError);

/// `block_padding::AnsiX923::raw_pad`: keeps the first `pos` bytes of the
/// block, sets those from `pos` to the last but one to zero and the last to
/// the block's length less `pos`. It panics where `pos` is not inside the
/// block or the block is longer than 255 bytes.
#[verifier::external_body]
fn ansi_x923_pad(block: &mut Vec<u8>, pos: usize)
    requires
        pos < old(block)@.len() <= MAX_BLOCK_SIZE,
    ensures
        final(block)@ == spec_pad(old(block)@.take(pos as int), old(block)@.len()),
{
    AnsiX923::raw_pad(block.as_mut_slice(), pos)
}

/// `block_padding::AnsiX923::raw_unpad`: reads the count in the last byte,
/// fails where it is zero, larger than the block, or a counted byte before it
/// is not zero, and else gives the block without the counted bytes. It panics
/// on an empty block and on one longer than 255 bytes.
#[verifier::external_body]
fn ansi_x923_unpad(block: &Vec<u8>) -> (r: Result<Vec<u8>, UnpadError>)
    requires
        1 <= block@.len() <= MAX_BLOCK_SIZE,
    ensures
        match r {
            Ok(data) => spec_unpad(block@) == Some(data@),
            Err(_) => spec_unpad(block@) is None,
        },
{
    AnsiX923::raw_unpad(block.as_slice()).map(|data| data.to_vec())
}

/// Pads `data` to a block of `block_size` bytes. Data that already fills the
/// block is returned as it is.
pub fn pad_block(data: Vec<u8>, block_size: usize) -> (block: Vec<u8>)
    requires
        data@.len() <= block_size,
        data@.len() < block_size ==> block_size <= MAX_BLOCK_SIZE,
    ensures
        block@ == spec_pad(data@, block_size as nat),
{
    let data_len = data.len();
    if data_len == block_size {
        return data;
    }
    let mut block = data;
    while block.len() < block_size
        invariant
            data_len <= block.len() <= block_size,
            block@.take(data_len as int) == data@,
        decreases block_size - block.len(),
    {
        block.push(0);
    }
    ansi_x923_pad(&mut block, data_len);
    block
}

/// Takes the padding off `data`, the last block of a stream.
pub fn unpad_block(data: &Vec<u8>) -> (r: Result<Vec<u8>, PaddingError>)
    ensures
        match r {
            Ok(rest) => spec_unpad(data@) == Some(rest@),
            Err(e) => spec_unpad(data@) is None && e == PaddingError::InvalidPadding,
        },
{
    if data.len() == 0 || data.len() > MAX_BLOCK_SIZE {
        return Err(PaddingError::InvalidPadding);
    }
    match ansi_x923_unpad(data) {
        Ok(rest) => Ok(rest),
        Err(_) => Err(PaddingError::InvalidPadding),
    }
}

/// Unpadding a padded block gives the data back, whenever the data leaves room
/// for at least the count byte.
pub proof fn lemma_unpad_pad(data: Seq<u8>, block_size: nat)
    requires
        data.len() < block_size <= MAX_BLOCK_SIZE,
    ensures
        spec_unpad(spec_pad(data, block_size)) == Some(data),
{
    let block = spec_pad(data, block_size);
    assert(block.len() == block_size);
    assert(block.last() == (block_size - data.len()) as u8);
    assert(valid_padding(block));
    assert(block.take(block.len() - block.last()) =~= data);
}

/// A block whose last byte is zero has no valid padding.
pub proof fn lemma_unpad_zero_count(block: Seq<u8>)
    requires
        block.len() >= 1,
        block.last() == 0,
    ensures
        spec_unpad(block) is None,
{
}

} // verus!
