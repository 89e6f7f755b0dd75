use filegram::decode::{from_rgb, CorruptImage};
use filegram::encode::{from_reader, from_slice, is_encodable};
use filegram::grid::PixelGrid;
use filegram::utils::{ReadError, SliceReader};
use image::{ImageFormat, RgbImage};
use std::io::Cursor;

fn sample_bytes(len: usize) -> Vec<u8> {
    (0..len).map(|i| (i * 7 + i / 255 + 1) as u8).collect()
}

#[test]
fn encode_decode_test() {
    let file_data = b"Filegram turns any file into a picture and back.\n".repeat(23);
    let file_size = file_data.len();
    let mut file = SliceReader::new(file_data.clone());
    let rgb = from_reader(&mut file, file_size).unwrap();
    let data = from_rgb(&rgb).unwrap();

    assert_eq!(file_data, data)
}

#[test]
fn encode_decode_test_encode_decode_test() {
    let file_data = b"Filegram turns any file into a picture and back.\n".repeat(23);
    let file_size = file_data.len();
    let mut file = SliceReader::new(file_data.clone());
    let rgb = from_reader(&mut file, file_size).unwrap();

    let (width, height) = (rgb.width(), rgb.height());
    let picture = RgbImage::from_raw(width, height, rgb.into_raw()).unwrap();
    let mut buf = Cursor::new(Vec::new());
    picture.write_to(&mut buf, ImageFormat::Png).unwrap();

    let loaded = image::load(Cursor::new(buf.into_inner()), ImageFormat::Png).unwrap();
    let loaded = loaded.as_rgb8().unwrap();
    let grid = PixelGrid::from_raw(loaded.width(), loaded.height(), loaded.as_raw().clone());
    let data = from_rgb(&grid.unwrap()).unwrap();

    assert_eq!(file_data, data)
}

#[test]
fn decode_gives_back_what_was_encoded() {
    for len in [0, 1, 2, 3, 84, 85, 254, 255, 256, 509, 510, 511, 1000, 2550, 4096] {
        let input = sample_bytes(len);
        let image = from_slice(&input);
        assert_eq!(image.width(), 85);
        assert_eq!(image.height() as usize, len / 255 + 1);
        assert_eq!(from_rgb(&image), Ok(input));
    }
}

#[test]
fn two_bytes_make_one_row() {
    let image = from_slice(b"AB");
    assert_eq!(image.width(), 85);
    assert_eq!(image.height(), 1);
    assert_eq!(image.get_pixel(0, 0), [0x41, 0x42, 0x00]);
    for x in 1..84 {
        assert_eq!(image.get_pixel(x, 0), [0, 0, 0]);
    }
    assert_eq!(image.get_pixel(84, 0), [0, 0, 253]);
    assert_eq!(from_rgb(&image), Ok(b"AB".to_vec()));
}

#[test]
fn nothing_makes_one_row_of_padding() {
    let image = from_slice(&[]);
    assert_eq!(image.width(), 85);
    assert_eq!(image.height(), 1);
    assert_eq!(from_rgb(&image), Ok(Vec::new()));
    let mut expected = vec![0u8; 255];
    expected[254] = 255;
    assert_eq!(image.into_raw(), expected);
}

#[test]
fn a_full_block_is_followed_by_a_row_of_padding() {
    let input = sample_bytes(255);
    let image = from_slice(&input);
    assert_eq!(image.height(), 2);
    assert_eq!(from_rgb(&image), Ok(input.clone()));
    let mut expected = input;
    expected.extend_from_slice(&[0u8; 254]);
    expected.push(255);
    assert_eq!(image.into_raw(), expected);
}

#[test]
fn rows_hold_the_blocks_in_order() {
    let input = sample_bytes(600);
    let image = from_slice(&input);
    assert_eq!(image.height(), 3);
    assert_eq!(image.get_pixel(0, 0), [input[0], input[1], input[2]]);
    assert_eq!(image.get_pixel(84, 0), [input[252], input[253], input[254]]);
    assert_eq!(image.get_pixel(0, 1), [input[255], input[256], input[257]]);
    assert_eq!(image.get_pixel(29, 2), [input[597], input[598], input[599]]);
    assert_eq!(image.get_pixel(30, 2), [0, 0, 0]);
    assert_eq!(image.get_pixel(84, 2), [0, 0, 165]);
}

#[test]
fn a_reader_gives_the_picture_that_a_slice_gives() {
    for len in [0, 1, 254, 255, 256, 510, 777] {
        for step in [1, 7, 255, 256, 100_000] {
            let input = sample_bytes(len);
            let mut reader = SliceReader::with_step(input.clone(), step);
            let image = from_reader(&mut reader, len).unwrap();
            assert_eq!(image.height() as usize, len / 255 + 1);
            assert_eq!(image.into_raw(), from_slice(&input).into_raw());
        }
    }
}

#[test]
fn a_reader_with_fewer_bytes_than_announced_leaves_rows_of_zeros() {
    let input = sample_bytes(300);
    let mut reader = SliceReader::new(input.clone());
    let image = from_reader(&mut reader, 1000).unwrap();
    assert_eq!(image.height(), 4);
    let mut expected = from_slice(&input).into_raw();
    expected.extend_from_slice(&[0u8; 510]);
    assert_eq!(image.into_raw(), expected);
}

#[test]
fn a_reader_with_more_bytes_than_announced_is_cut_off() {
    let input = sample_bytes(1000);
    let mut reader = SliceReader::new(input.clone());
    let image = from_reader(&mut reader, 300).unwrap();
    assert_eq!(image.height(), 2);
    assert_eq!(image.into_raw(), input[..510].to_vec());
}

#[test]
fn a_picture_of_another_width_is_corrupt() {
    let image = PixelGrid::from_raw(84, 1, vec![1u8; 252]).unwrap();
    assert_eq!(from_rgb(&image), Err(CorruptImage));
    let image = PixelGrid::from_raw(86, 1, vec![1u8; 258]).unwrap();
    assert_eq!(from_rgb(&image), Err(CorruptImage));
}

#[test]
fn a_picture_without_rows_is_corrupt() {
    let image = PixelGrid::new(85, 0);
    assert_eq!(from_rgb(&image), Err(CorruptImage));
}

#[test]
fn a_picture_whose_last_row_is_black_is_corrupt() {
    let image = PixelGrid::new(85, 3);
    assert_eq!(from_rgb(&image), Err(CorruptImage));
}

#[test]
fn a_picture_with_a_damaged_last_row_is_corrupt() {
    let mut image = from_slice(b"AB");
    image.put_pixel(40, 0, [0, 1, 0]);
    assert_eq!(from_rgb(&image), Err(CorruptImage));
}

#[test]
fn only_the_last_row_is_unpadded() {
    let mut samples = vec![0u8; 510];
    samples[254] = 3;
    samples[509] = 250;
    let image = PixelGrid::from_raw(85, 2, samples.clone()).unwrap();
    assert_eq!(from_rgb(&image), Ok(samples[..260].to_vec()));
}

#[test]
fn a_failing_read_gives_its_error_and_no_picture() {
    let error = ReadError { code: 5 };
    for len in [0, 1, 254, 255, 256, 600] {
        let mut reader = SliceReader::with_fault(sample_bytes(len), 100, error);
        assert_eq!(from_reader(&mut reader, len).err(), Some(error));
    }
}

#[test]
fn a_failure_behind_the_last_row_is_never_met() {
    let error = ReadError { code: 5 };
    let input = sample_bytes(600);
    let mut reader = SliceReader::with_fault(input.clone(), 100, error);
    let image = from_reader(&mut reader, 300).unwrap();
    assert_eq!(image.height(), 2);
    assert_eq!(image.into_raw(), input[..510].to_vec());
    let mut reader = SliceReader::with_fault(input.clone(), 100, error);
    let image = from_reader(&mut reader, 509).unwrap();
    assert_eq!(image.into_raw(), input[..510].to_vec());
    let mut reader = SliceReader::with_fault(input, 100, error);
    assert_eq!(from_reader(&mut reader, 510).err(), Some(error));
}

#[test]
fn an_input_is_encodable_while_its_rows_fit_a_side_of_an_image() {
    assert!(is_encodable(0));
    assert!(is_encodable(1_000_000));
    if let Ok(side) = usize::try_from(i32::MAX as u64 * 255) {
        assert!(is_encodable(side - 1));
        assert!(!is_encodable(side));
    }
    assert!(!is_encodable(usize::MAX));
    assert!(!is_encodable(isize::MAX as usize - 254));
}
