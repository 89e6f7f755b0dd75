//! From bytes to a picture.

use crate::decode::{lemma_decode_encode, spec_decode, CorruptImage};
use crate::grid::{GridView, PixelGrid};
use crate::padding::{pad_block, spec_pad};
use crate::utils::{read_exact, ReadError, Source};
use crate::{BLOCK_SIZE, IMAGE_WIDTH};
use vstd::prelude::*;
use vstd::slice::{slice_subrange, slice_to_vec};

verus! {

/// Rows in the picture of `len` bytes: one for every full block, and one more
/// for what is left, which always carries the padding.
pub open spec fn spec_height(len: nat) -> nat {
    len / (BLOCK_SIZE as nat) + 1
}

/// The samples of the picture of `input`: its full blocks as they are, then
/// what is left of it, padded to a block.
pub open spec fn spec_encode_samples(input: Seq<u8>) -> Seq<u8> {
    let full = BLOCK_SIZE * (input.len() / (BLOCK_SIZE as nat));
    input.take(full) + spec_pad(input.skip(full), BLOCK_SIZE as nat)
}

/// The picture of `input`.
pub open spec fn spec_encode(input: Seq<u8>) -> GridView {
    GridView {
        width: IMAGE_WIDTH as nat,
        height: spec_height(input.len()),
        samples: spec_encode_samples(input),
    }
}

/// An input whose picture an image buffer can hold: its rows fit a signed
/// 32-bit side, its samples a vector.
pub open spec fn encodable(len: nat) -> bool {
    len / (BLOCK_SIZE as nat) < i32::MAX && len + BLOCK_SIZE <= isize::MAX
}

/// Whether an input of `len` bytes is [`encodable`].
pub fn is_encodable(len: usize) -> (b: bool)
    ensures
        b == encodable(len as nat),
{
    len / BLOCK_SIZE < i32::MAX as usize && len <= isize::MAX as usize - BLOCK_SIZE
}

/// The samples of a picture of `height` rows that shows `data` as far as it has
/// room for them, and zeros behind them.
pub open spec fn spec_frame(height: nat, data: Seq<u8>) -> Seq<u8> {
    Seq::new(
        (BLOCK_SIZE * height) as nat,
        |j: int|
            if j < data.len() {
                data[j]
            } else {
                0u8
            },
    )
}

/// Pixels that `len` bytes fill or touch.
pub open spec fn pixels_of(len: nat) -> nat {
    (len + 2) / 3
}

/// `samples` after `data` has been written over them pixel by pixel, starting
/// at pixel `shift`: a last pixel that `data` fills in part is completed with
/// zeros, and what would lie behind the last sample is dropped.
pub open spec fn spec_blit(samples: Seq<u8>, shift: int, data: Seq<u8>) -> Seq<u8> {
    Seq::new(
        samples.len(),
        |j: int|
            {
                let at = j - 3 * shift;
                if 0 <= at < 3 * pixels_of(data.len()) {
                    if at < data.len() {
                        data[at]
                    } else {
                        0u8
                    }
                } else {
                    samples[j]
                }
            },
    )
}

/// Writing one whole block at the start of a row replaces that row.
pub proof fn lemma_blit_row(samples: Seq<u8>, row: nat, block: Seq<u8>)
    requires
        block.len() == BLOCK_SIZE,
        BLOCK_SIZE * (row + 1) <= samples.len(),
    ensures
        spec_blit(samples, IMAGE_WIDTH * row, block) == samples.take(BLOCK_SIZE * row) + block
            + samples.skip(BLOCK_SIZE * (row + 1)),
{
    assert(spec_blit(samples, IMAGE_WIDTH * row, block) =~= samples.take(BLOCK_SIZE * row) + block
        + samples.skip(BLOCK_SIZE * (row + 1)));
}

/// A grid as wide as a block has a block of samples in every row.
pub proof fn lemma_row_samples(view: GridView)
    requires
        view.wf(),
        view.width == IMAGE_WIDTH,
    ensures
        view.samples.len() == BLOCK_SIZE * view.height,
{
    assert(3 * view.width * view.height == BLOCK_SIZE * view.height) by (nonlinear_arith)
        requires
            view.width == 85,
    ;
}

/// Writes `data` into `image`, three bytes to a pixel, from pixel `shift` on
/// in reading order.
fn update_frame(image: &mut PixelGrid, data: Vec<u8>, shift: usize)
    requires
        old(image)@.wf(),
        old(image)@.width == IMAGE_WIDTH,
        1 <= old(image)@.height <= i32::MAX,
        shift + pixels_of(data@.len()) <= usize::MAX,
    ensures
        final(image)@.width == old(image)@.width,
        final(image)@.height == old(image)@.height,
        final(image)@.samples == spec_blit(old(image)@.samples, shift as int, data@),
{
    let height = image.height();
    let count = data.len() / 3 + (if data.len() % 3 == 0 {
        0
    } else {
        1
    });
    let mut i: usize = 0;
    while i < count
        invariant
            i <= count,
            count == pixels_of(data@.len()),
            3 * count <= data@.len() + 2,
            data@.len() <= usize::MAX,
            shift + count <= usize::MAX,
            image@.wf(),
            image@.width == IMAGE_WIDTH,
            image@.height == height,
            image@.height == old(image)@.height,
            1 <= height <= i32::MAX,
            image@.samples.len() == old(image)@.samples.len(),
            forall|j: int|
                0 <= j < image@.samples.len() ==> image@.samples[j] == if 0 <= j - 3 * shift < 3
                    * i {
                    if j - 3 * shift < data@.len() {
                        data@[j - 3 * shift]
                    } else {
                        0u8
                    }
                } else {
                    old(image)@.samples[j]
                },
        decreases count - i,
    {
        let at = 3 * i;
        let rest = data.len() - at;
        let color = [
            data[at],
            if rest > 1 {
                data[at + 1]
            } else {
                0
            },
            if rest > 2 {
                data[at + 2]
            } else {
                0
            },
        ];
        let pixel = i + shift;
        let x = pixel % IMAGE_WIDTH;
        let y = pixel / IMAGE_WIDTH;
        proof {
            lemma_row_samples(image@);
        }
        if y < height as usize {
            assert(image@.samples.len() == BLOCK_SIZE * height);
            assert(pixel == IMAGE_WIDTH * y + x);
            assert(image@.offset(x as int, y as int) == 3 * pixel);
            image.put_pixel(x as u32, y as u32, color);
        }
        i += 1;
    }
    assert(image@.samples =~= spec_blit(old(image)@.samples, shift as int, data@));
}

/// The picture of `input`.
pub fn from_slice(input: &[u8]) -> (image: PixelGrid)
    requires
        encodable(input@.len()),
    ensures
        image@ == spec_encode(input@),
        image@.wf(),
        spec_decode(image@) == Ok::<Seq<u8>, CorruptImage>(input@),
{
    proof {
        lemma_decode_encode(input@);
    }
    let height = input.len() / BLOCK_SIZE + 1;
    let mut image = PixelGrid::new(IMAGE_WIDTH as u32, height as u32);
    let ghost target = spec_encode_samples(input@);
    let mut row: usize = 0;
    while row < height
        invariant
            row <= height,
            height == spec_height(input@.len()),
            encodable(input@.len()),
            target == spec_encode_samples(input@),
            target.len() == BLOCK_SIZE * height,
            image@.wf(),
            image@.width == IMAGE_WIDTH,
            image@.height == height,
            image@.samples == target.take(BLOCK_SIZE * row) + Seq::new(
                (BLOCK_SIZE * (height - row)) as nat,
                |i: int| 0u8,
            ),
        decreases height - row,
    {
        let start = row * BLOCK_SIZE;
        let end = if input.len() - start < BLOCK_SIZE {
            input.len()
        } else {
            start + BLOCK_SIZE
        };
        let chunk = slice_to_vec(slice_subrange(input, start, end));
        let block = if chunk.len() < BLOCK_SIZE {
            pad_block(chunk, BLOCK_SIZE)
        } else {
            chunk
        };
        assert(block@ =~= target.subrange(BLOCK_SIZE * row, BLOCK_SIZE * (row + 1)));
        proof {
            lemma_blit_row(image@.samples, row as nat, block@);
        }
        update_frame(&mut image, block, row * IMAGE_WIDTH);
        assert(image@.samples =~= target.take(BLOCK_SIZE * (row + 1)) + Seq::new(
            (BLOCK_SIZE * (height - (row + 1))) as nat,
            |i: int| 0u8,
        ));
        row += 1;
    }
    assert(image@.samples =~= target);
    image
}

/// The picture of the bytes that `input` has left, in an image with the rows
/// that `file_size` bytes take. Where the source holds that many bytes, this is
/// their picture as [`from_slice`] makes it; where it holds fewer, rows of zeros
/// follow; where it holds more, the picture ends with its last row and the
/// source keeps the rest. A read fails only where the source runs out before
/// the last row is full and a failure waits behind its bytes: that failure is
/// then the result, and there is no picture.
pub fn from_reader<S: Source>(input: &mut S, file_size: usize) -> (r: Result<PixelGrid, ReadError>)
    requires
        encodable(file_size as nat),
    ensures
        r is Err <==> old(input).remaining().len() < BLOCK_SIZE * spec_height(file_size as nat)
            && old(input).fault() is Some,
        r matches Err(e) ==> old(input).fault() == Some(e),
        r matches Ok(image) ==> {
            &&& image@.wf()
            &&& image@.width == IMAGE_WIDTH
            &&& image@.height == spec_height(file_size as nat)
            &&& image@.samples == spec_frame(
                spec_height(file_size as nat),
                spec_encode_samples(old(input).remaining()),
            )
            &&& old(input).remaining().len() == file_size ==> image@ == spec_encode(
                old(input).remaining(),
            ) && spec_decode(image@) == Ok::<Seq<u8>, CorruptImage>(old(input).remaining())
            &&& final(input).remaining() == old(input).remaining().skip(
                if old(input).remaining().len() < BLOCK_SIZE * spec_height(file_size as nat) {
                    old(input).remaining().len() as int
                } else {
                    BLOCK_SIZE * spec_height(file_size as nat)
                },
            )
            &&& final(input).fault() == old(input).fault()
        },
{
    let height = file_size / BLOCK_SIZE + 1;
    let mut image = PixelGrid::new(IMAGE_WIDTH as u32, height as u32);
    let mut bytes: Vec<u8> = vec![0u8; BLOCK_SIZE];
    let ghost stream = input.remaining();
    let ghost target = spec_encode_samples(stream);
    let mut row: usize = 0;
    let mut done = false;
    assert(stream.skip(0) =~= stream);
    while row < height && !done
        invariant
            row <= height,
            height == spec_height(file_size as nat),
            encodable(file_size as nat),
            stream == old(input).remaining(),
            target == spec_encode_samples(stream),
            bytes@.len() == BLOCK_SIZE,
            image@.wf(),
            image@.width == IMAGE_WIDTH,
            image@.height == height,
            input.fault() == old(input).fault(),
            !done ==> BLOCK_SIZE * row <= stream.len(),
            !done ==> input.remaining() == stream.skip(BLOCK_SIZE * row),
            !done ==> image@.samples == target.take(BLOCK_SIZE * row) + Seq::new(
                (BLOCK_SIZE * (height - row)) as nat,
                |i: int| 0u8,
            ),
            done ==> stream.len() < BLOCK_SIZE * height,
            done ==> old(input).fault() is None,
            done ==> input.remaining() == stream.skip(stream.len() as int),
            done ==> image@.samples == spec_frame(height as nat, target),
        decreases height - row,
    {
        let n = match read_exact(input, &mut bytes) {
            Ok(n) => n,
            Err(e) => {
                return Err(e);
            },
        };
        let block = if n < BLOCK_SIZE {
            pad_block(slice_to_vec(slice_subrange(bytes.as_slice(), 0, n)), BLOCK_SIZE)
        } else {
            bytes.clone()
        };
        assert(block@ =~= target.subrange(BLOCK_SIZE * row, BLOCK_SIZE * (row + 1)));
        proof {
            lemma_row_samples(image@);
            lemma_blit_row(image@.samples, row as nat, block@);
        }
        update_frame(&mut image, block, row * IMAGE_WIDTH);
        if n < BLOCK_SIZE {
            done = true;
            assert(image@.samples =~= spec_frame(height as nat, target));
            assert(input.remaining() =~= stream.skip(stream.len() as int));
        } else {
            assert(image@.samples =~= target.take(BLOCK_SIZE * (row + 1)) + Seq::new(
                (BLOCK_SIZE * (height - (row + 1))) as nat,
                |i: int| 0u8,
            ));
            assert(input.remaining() =~= stream.skip(BLOCK_SIZE * (row + 1)));
        }
        row += 1;
    }
    assert(image@.samples =~= spec_frame(height as nat, target));
    assert(stream.len() == file_size ==> image@.samples =~= target);
    proof {
        lemma_decode_encode(stream);
    }
    Ok(image)
}

} // verus!
