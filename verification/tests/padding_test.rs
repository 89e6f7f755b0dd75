use filegram::padding::{pad_block, unpad_block, PaddingError};

#[test]
fn pad_fills_with_zeros_and_counts_in_the_last_byte() {
    let block = pad_block(b"test".to_vec(), 8);
    assert_eq!(block, b"test\x00\x00\x00\x04".to_vec());
}

#[test]
fn pad_overwrites_nothing_of_the_data() {
    let data: Vec<u8> = (1..=254).collect();
    let block = pad_block(data.clone(), 255);
    assert_eq!(block.len(), 255);
    assert_eq!(&block[..254], &data[..]);
    assert_eq!(block[254], 1);
}

#[test]
fn pad_of_nothing_is_all_padding() {
    let block = pad_block(Vec::new(), 255);
    let mut expected = vec![0u8; 255];
    expected[254] = 255;
    assert_eq!(block, expected);
}

#[test]
fn pad_leaves_a_full_block_alone() {
    let data: Vec<u8> = (0..255).map(|i| (i % 7) as u8).collect();
    assert_eq!(pad_block(data.clone(), 255), data);
    let big = vec![9u8; 300];
    assert_eq!(pad_block(big.clone(), 300), big);
}

#[test]
fn unpad_gives_back_what_was_padded() {
    for block_size in 1..=255usize {
        for len in 0..block_size {
            let data: Vec<u8> = (0..len).map(|i| (i * 31 + block_size) as u8).collect();
            let block = pad_block(data.clone(), block_size);
            assert_eq!(block.len(), block_size);
            assert_eq!(unpad_block(&block), Ok(data));
        }
    }
}

#[test]
fn unpad_keeps_zeros_that_belong_to_the_data() {
    let block = pad_block(vec![0, 0, 0], 6);
    assert_eq!(block, vec![0, 0, 0, 0, 0, 3]);
    assert_eq!(unpad_block(&block), Ok(vec![0, 0, 0]));
}

#[test]
fn unpad_refuses_a_block_of_zeros() {
    assert_eq!(unpad_block(&vec![0u8; 255]), Err(PaddingError::InvalidPadding));
    assert_eq!(unpad_block(&vec![0u8; 1]), Err(PaddingError::InvalidPadding));
}

#[test]
fn unpad_refuses_a_count_larger_than_the_block() {
    assert_eq!(unpad_block(&vec![0, 0, 0, 5]), Err(PaddingError::InvalidPadding));
    assert_eq!(unpad_block(&vec![2]), Err(PaddingError::InvalidPadding));
}

#[test]
fn unpad_refuses_filler_that_is_not_zero() {
    assert_eq!(unpad_block(&vec![7, 7, 1, 0, 3]), Err(PaddingError::InvalidPadding));
    assert_eq!(unpad_block(&vec![7, 7, 0, 1, 3]), Err(PaddingError::InvalidPadding));
    assert_eq!(unpad_block(&vec![7, 7, 0, 0, 3]), Ok(vec![7, 7]));
}

#[test]
fn unpad_takes_a_count_of_the_whole_block() {
    assert_eq!(unpad_block(&vec![0, 0, 0, 4]), Ok(Vec::new()));
    assert_eq!(unpad_block(&vec![1]), Ok(Vec::new()));
}

#[test]
fn unpad_refuses_blocks_that_no_count_describes() {
    assert_eq!(unpad_block(&Vec::new()), Err(PaddingError::InvalidPadding));
    let mut long = vec![0u8; 256];
    long[255] = 1;
    assert_eq!(unpad_block(&long), Err(PaddingError::InvalidPadding));
}
