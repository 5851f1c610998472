use large_blobs::bytes::{append_bytes, copy_range, ranges_equal};
use large_blobs::ctap::large_blobs::{checksum_matches, TRUNCATED_HASH_LEN};
use large_blobs::ctap::status_code::Ctap2StatusCode;
use large_blobs::ctap::storage::{PersistentStore, MAX_LARGE_BLOB_ARRAY_SIZE};
use sha2::{Digest, Sha256};

#[test]
fn new_store_holds_the_empty_array() {
    let store = PersistentStore::new();
    let array = store.get_large_blob_array(100, 0);
    assert_eq!(array.len(), 17);
    assert_eq!(array[0], 0x80);
    // The empty array carries its own checksum.
    assert_eq!(&array[1..], &Sha256::digest([0x80u8])[..16]);
    assert_eq!(store.pin_hash(), None);
}

#[test]
fn store_reads_up_to_the_end() {
    let mut store = PersistentStore::new();
    let array: Vec<u8> = (0u8..100).collect();
    assert_eq!(store.commit_large_blob_array(&array), Ok(()));
    assert_eq!(store.get_large_blob_array(100, 0), array);
    assert_eq!(store.get_large_blob_array(usize::MAX, 0), array);
    assert_eq!(store.get_large_blob_array(10, 20), &array[20..30]);
    assert_eq!(store.get_large_blob_array(10, 95), &array[95..]);
    assert_eq!(store.get_large_blob_array(usize::MAX, 99), &array[99..]);
    assert_eq!(store.get_large_blob_array(10, 100), Vec::<u8>::new());
    assert_eq!(store.get_large_blob_array(10, usize::MAX), Vec::<u8>::new());
    assert_eq!(store.get_large_blob_array(0, 0), Vec::<u8>::new());
}

#[test]
fn store_replaces_the_array_as_a_whole() {
    let mut store = PersistentStore::new();
    assert_eq!(store.commit_large_blob_array(&[0x01; 40]), Ok(()));
    assert_eq!(store.commit_large_blob_array(&[0x02; 3]), Ok(()));
    assert_eq!(store.get_large_blob_array(40, 0), vec![0x02; 3]);
    assert_eq!(store.commit_large_blob_array(&[]), Ok(()));
    assert_eq!(store.get_large_blob_array(40, 0), Vec::<u8>::new());
}

#[test]
fn store_refuses_an_array_that_is_too_long() {
    let mut store = PersistentStore::new();
    assert_eq!(store.commit_large_blob_array(&[0x01; 2048]), Ok(()));
    assert_eq!(
        store.commit_large_blob_array(&[0x02; MAX_LARGE_BLOB_ARRAY_SIZE + 1]),
        Err(Ctap2StatusCode::CTAP2_ERR_LARGE_BLOB_STORAGE_FULL)
    );
    assert_eq!(store.get_large_blob_array(4, 2046), vec![0x01; 2]);
}

#[test]
fn store_keeps_the_pin_hash() {
    let mut store = PersistentStore::new();
    let mut pin_hash = [0u8; 16];
    pin_hash[5] = 0x99;
    store.set_pin(&pin_hash);
    assert_eq!(store.pin_hash(), Some(pin_hash));
    assert_eq!(store.commit_large_blob_array(&[0x01; 4]), Ok(()));
    assert_eq!(store.pin_hash(), Some(pin_hash));
    assert_eq!(store.get_large_blob_array(4, 0), vec![0x01; 4]);
}

#[test]
fn checksum_is_the_leading_16_bytes_of_the_digest() {
    assert_eq!(TRUNCATED_HASH_LEN, 16);
    let mut digest = [0u8; 32];
    for (i, byte) in digest.iter_mut().enumerate() {
        *byte = 0x40 + i as u8;
    }
    let mut array = vec![0x1B; 4];
    array.extend_from_slice(&digest[..16]);
    assert!(checksum_matches(&array, &digest));
    assert!(checksum_matches(&digest[..16], &digest));
    let mut trailing = vec![0x1B; 4];
    trailing.extend_from_slice(&digest[16..]);
    assert!(!checksum_matches(&trailing, &digest));
    array[19] ^= 0x01;
    assert!(!checksum_matches(&array, &digest));
    array[19] ^= 0x01;
    array[4] ^= 0x01;
    assert!(!checksum_matches(&array, &digest));
    assert!(!checksum_matches(&digest[..15], &digest));
    assert!(!checksum_matches(&[], &digest));
}

#[test]
fn ranges_equal_compares_byte_for_byte() {
    let left = [1u8, 2, 3, 4, 5, 6];
    let right = [9u8, 3, 4, 5, 7];
    assert!(ranges_equal(&left, 2, &right, 1, 3));
    assert!(!ranges_equal(&left, 2, &right, 1, 4));
    assert!(!ranges_equal(&left, 1, &right, 1, 3));
    assert!(!ranges_equal(&left, 0, &right, 0, 1));
    assert!(ranges_equal(&left, 6, &right, 5, 0));
    assert!(ranges_equal(&left, 0, &left, 0, 6));
}

#[test]
fn copy_range_copies_from_start_to_end() {
    let source = [1u8, 2, 3, 4, 5, 6];
    assert_eq!(copy_range(&source, 1, 4), vec![2, 3, 4]);
    assert_eq!(copy_range(&source, 0, 6), source.to_vec());
    assert_eq!(copy_range(&source, 6, 6), Vec::<u8>::new());
}

#[test]
fn append_bytes_adds_at_the_end() {
    let mut target = vec![1u8, 2];
    append_bytes(&mut target, &[3, 4, 5]);
    assert_eq!(target, vec![1, 2, 3, 4, 5]);
    append_bytes(&mut target, &[]);
    assert_eq!(target, vec![1, 2, 3, 4, 5]);
}
