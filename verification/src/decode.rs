//! From a picture back to bytes.

use crate::encode::{lemma_row_samples, spec_encode};
use crate::grid::{GridView, PixelGrid};
use crate::padding::{lemma_unpad_pad, spec_unpad, unpad_block};
use crate::{BLOCK_SIZE, IMAGE_WIDTH};
use vstd::prelude::*;

verus! {

/// The picture is none that encoding makes: it has no rows, its rows are not
/// one block wide, or its last row does not end in valid padding.
#[derive(Debug, Clone, Copy, PartialEq, Eq)]
pub struct CorruptImage;

/// The bytes that a picture stands for: all rows but the last as they are,
/// then the last row without its padding.
pub open spec fn spec_decode(view: GridView) -> Result<Seq<u8>, CorruptImage> {
    if view.width == IMAGE_WIDTH && view.height >= 1 {
        let body = BLOCK_SIZE * (view.height - 1);
        match spec_unpad(view.samples.skip(body)) {
            Some(rest) => Ok(view.samples.take(body) + rest),
            None => Err(CorruptImage),
        }
    } else {
        Err(CorruptImage)
    }
}

/// The samples of row `y`, from left to right.
fn read_row(image: &PixelGrid, y: u32) -> (row: Vec<u8>)
    requires
        image@.wf(),
        image@.width == IMAGE_WIDTH,
        y < image@.height,
    ensures
        row@ == image@.samples.subrange(BLOCK_SIZE * y, BLOCK_SIZE * (y + 1)),
{
    let mut row: Vec<u8> = Vec::new();
    let mut x: u32 = 0;
    proof {
        lemma_row_samples(image@);
    }
    while x < IMAGE_WIDTH as u32
        invariant
            x <= IMAGE_WIDTH,
            image@.wf(),
            image@.width == IMAGE_WIDTH,
            y < image@.height,
            image@.samples.len() == BLOCK_SIZE * image@.height,
            row@ == image@.samples.subrange(BLOCK_SIZE * y, BLOCK_SIZE * y + 3 * x),
        decreases IMAGE_WIDTH - x,
    {
        let color = image.get_pixel(x, y);
        row.push(color[0]);
        row.push(color[1]);
        row.push(color[2]);
        assert(image@.offset(x as int, y as int) == BLOCK_SIZE * y + 3 * x);
        x += 1;
        assert(row@ =~= image@.samples.subrange(BLOCK_SIZE * y, BLOCK_SIZE * y + 3 * x));
    }
    row
}

/// The bytes that `input_image` stands for.
pub fn from_rgb(input_image: &PixelGrid) -> (r: Result<Vec<u8>, CorruptImage>)
    ensures
        match r {
            Ok(data) => spec_decode(input_image@) == Ok::<Seq<u8>, CorruptImage>(data@),
            Err(_) => spec_decode(input_image@) is Err,
        },
{
    let width = input_image.width();
    let height = input_image.height();
    if width != IMAGE_WIDTH as u32 || height == 0 {
        return Err(CorruptImage);
    }
    proof {
        lemma_row_samples(input_image@);
    }
    let ghost samples = input_image@.samples;
    let mut data: Vec<u8> = Vec::new();
    let mut y: u32 = 0;
    while y < height - 1
        invariant
            y <= height - 1,
            height == input_image@.height,
            input_image@.wf(),
            input_image@.width == IMAGE_WIDTH,
            samples == input_image@.samples,
            samples.len() == BLOCK_SIZE * height,
            data@ == samples.take(BLOCK_SIZE * y),
        decreases height - 1 - y,
    {
        let mut row = read_row(input_image, y);
        data.append(&mut row);
        y += 1;
        assert(data@ =~= samples.take(BLOCK_SIZE * y));
    }
    let last = read_row(input_image, y);
    assert(last@ =~= samples.skip(BLOCK_SIZE * (height - 1)));
    match unpad_block(&last) {
        Ok(mut rest) => {
            data.append(&mut rest);
            Ok(data)
        },
        Err(_) => Err(CorruptImage),
    }
}

/// Decoding the picture of any bytes gives those bytes back, whether or not
/// they fill their last block.
pub proof fn lemma_decode_encode(input: Seq<u8>)
    ensures
        spec_decode(spec_encode(input)) == Ok::<Seq<u8>, CorruptImage>(input),
{
    let full = BLOCK_SIZE * (input.len() / (BLOCK_SIZE as nat));
    let rest = input.skip(full);
    let view = spec_encode(input);
    lemma_unpad_pad(rest, BLOCK_SIZE as nat);
    assert(view.samples.skip(full) =~= crate::padding::spec_pad(rest, BLOCK_SIZE as nat));
    assert(view.samples.take(full) + rest =~= input);
}

} // verus!
