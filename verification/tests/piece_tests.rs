use get_torrent::piece::{AddError, Piece};
use get_torrent::BLOCK_SIZE;

use sha1::{Digest, Sha1};

#[test]
fn unfinished_blocks() {
    let p = Piece::new(0, [0; 20], 0);
    let u = p.unfinished_blocks();
    assert_eq!(u.len(), 0);

    let p = Piece::new(0, [0; 20], BLOCK_SIZE - 123);
    let u = p.unfinished_blocks();
    assert_eq!(u.len(), 1);
    let bp = u.get(0).unwrap();
    assert_eq!(bp.begin, 0);
    assert_eq!(bp.len, BLOCK_SIZE - 123);

    let p = Piece::new(0, [0; 20], BLOCK_SIZE);
    let u = p.unfinished_blocks();
    assert_eq!(u.len(), 1);
    let bp = u.get(0).unwrap();
    assert_eq!(bp.begin, 0);
    assert_eq!(bp.len, BLOCK_SIZE);

    let p = Piece::new(0, [0; 20], BLOCK_SIZE + 123);
    let u = p.unfinished_blocks();
    assert_eq!(u.len(), 2);
    let bp = u.get(0).unwrap();
    assert_eq!(bp.begin, 0);
    assert_eq!(bp.len, BLOCK_SIZE);
    let bp = u.get(1).unwrap();
    assert_eq!(bp.begin, BLOCK_SIZE);
    assert_eq!(bp.len, 123);

    let p = Piece::new(0, [0; 20], BLOCK_SIZE * 5);
    let u = p.unfinished_blocks();
    assert_eq!(u.len(), 5);
    let bp = u.get(4).unwrap();
    assert_eq!(bp.begin, BLOCK_SIZE * 4);
    assert_eq!(bp.len, BLOCK_SIZE);
}

#[test]
fn unfinished_blocks_skips_received() {
    let mut p = Piece::new(3, [0; 20], BLOCK_SIZE * 3);
    p.add(BLOCK_SIZE, vec![1u8; BLOCK_SIZE as usize]).unwrap();
    let u = p.unfinished_blocks();
    assert_eq!(u.len(), 2);
    assert_eq!(u[0].begin, 0);
    assert_eq!(u[0].len, BLOCK_SIZE);
    assert_eq!(u[1].begin, BLOCK_SIZE * 2);
    assert_eq!(u[1].len, BLOCK_SIZE);
}

#[test]
fn add_rejects_misaligned_begin() {
    let mut p = Piece::new(0, [0; 20], BLOCK_SIZE * 2);
    let r = p.add(1, vec![0u8; 10]);
    assert!(matches!(r, Err(AddError::BlockAlignError)));
    let r = p.add(BLOCK_SIZE + 100, vec![0u8; 10]);
    assert!(matches!(r, Err(AddError::BlockAlignError)));
}

#[test]
fn add_rejects_out_of_range_begin() {
    let mut p = Piece::new(0, [0; 20], BLOCK_SIZE * 2);
    let r = p.add(BLOCK_SIZE * 2, vec![0u8; 10]);
    assert!(matches!(r, Err(AddError::BeginNotInRange)));
}

#[test]
fn add_rejects_oversize_block() {
    let mut p = Piece::new(0, [0; 20], BLOCK_SIZE * 2);
    let r = p.add(0, vec![0u8; BLOCK_SIZE as usize + 1]);
    assert!(matches!(r, Err(AddError::BlockOversize)));
}

#[test]
fn add_rejects_overwrite_and_keeps_first_block() {
    let mut p = Piece::new(0, [0; 20], BLOCK_SIZE * 2);
    p.add(0, vec![7u8; BLOCK_SIZE as usize]).unwrap();
    let r = p.add(0, vec![8u8; BLOCK_SIZE as usize]);
    assert!(matches!(r, Err(AddError::BlockOverwrite)));
    assert_eq!(p.blocks[0].as_ref().unwrap()[0], 7);
}

#[test]
fn piece_completes_only_on_matching_digest() {
    let first = vec![0xaau8; BLOCK_SIZE as usize];
    let second = vec![0xbbu8; 100];
    let mut all = first.clone();
    all.extend_from_slice(&second);
    let hash: [u8; 20] = Sha1::digest(&all).into();

    let mut p = Piece::new(0, hash, BLOCK_SIZE + 100);
    assert!(!p.complete);
    p.add(0, first.clone()).unwrap();
    assert!(!p.complete);
    p.add(BLOCK_SIZE, second.clone()).unwrap();
    assert!(p.complete);

    // One altered byte anywhere must leave the piece incomplete.
    let mut altered_first = first.clone();
    altered_first[5] ^= 0x01;
    let mut q = Piece::new(0, hash, BLOCK_SIZE + 100);
    q.add(0, altered_first).unwrap();
    q.add(BLOCK_SIZE, second.clone()).unwrap();
    assert!(!q.complete);
}

#[test]
fn wrong_expected_digest_never_completes() {
    let data = vec![1u8; 50];
    let mut p = Piece::new(0, [9; 20], 50);
    p.add(0, data).unwrap();
    assert!(!p.complete);
}
