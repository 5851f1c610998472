use large_blobs::ctap::command::AuthenticatorLargeBlobsParameters;
use large_blobs::ctap::large_blobs::{LargeBlobs, TRUNCATED_HASH_LEN};
use large_blobs::ctap::pin_protocol_v1::PinProtocolV1;
use large_blobs::ctap::response::ResponseData;
use large_blobs::ctap::status_code::Ctap2StatusCode;
use large_blobs::ctap::storage::PersistentStore;
use sha2::{Digest, Sha256};

#[test]
fn test_process_command_get_empty() {
    let mut persistent_store = PersistentStore::new();
    let pin_uv_auth_token = [0x55; 32];
    let mut pin_protocol_v1 = PinProtocolV1::new(pin_uv_auth_token, 0xFF);
    let mut large_blobs = LargeBlobs::new();

    let large_blob = vec![
        0x80, 0x76, 0xbe, 0x8b, 0x52, 0x8d, 0x00, 0x75, 0xf7, 0xaa, 0xe9, 0x8d, 0x6f, 0xa5,
        0x7a, 0x6d, 0x3c,
    ];
    let large_blobs_params = AuthenticatorLargeBlobsParameters {
        get: Some(large_blob.len()),
        set: None,
        offset: 0,
        length: None,
        pin_uv_auth_param: None,
        pin_uv_auth_protocol: None,
    };
    let large_blobs_response = large_blobs.process_command(
        &mut persistent_store,
        &mut pin_protocol_v1,
        large_blobs_params,
    );
    match large_blobs_response.unwrap() {
        ResponseData::AuthenticatorLargeBlobs(Some(response)) => {
            assert_eq!(response.config, large_blob);
        }
        _ => panic!("Invalid response type"),
    };
}

#[test]
fn test_process_command_commit_and_get() {
    let mut persistent_store = PersistentStore::new();
    let pin_uv_auth_token = [0x55; 32];
    let mut pin_protocol_v1 = PinProtocolV1::new(pin_uv_auth_token, 0xFF);
    let mut large_blobs = LargeBlobs::new();

    let blob_len: usize = 200;
    let data_len: usize = blob_len - TRUNCATED_HASH_LEN;
    let mut large_blob = vec![0x1B; data_len];
    large_blob.extend_from_slice(&Sha256::digest(&large_blob[..])[..TRUNCATED_HASH_LEN]);

    let large_blobs_params = AuthenticatorLargeBlobsParameters {
        get: None,
        set: Some(large_blob[..blob_len / 2].to_vec()),
        offset: 0,
        length: Some(blob_len),
        pin_uv_auth_param: None,
        pin_uv_auth_protocol: None,
    };
    let large_blobs_response = large_blobs.process_command(
        &mut persistent_store,
        &mut pin_protocol_v1,
        large_blobs_params,
    );
    assert_eq!(
        large_blobs_response,
        Ok(ResponseData::AuthenticatorLargeBlobs(None))
    );

    let large_blobs_params = AuthenticatorLargeBlobsParameters {
        get: None,
        set: Some(large_blob[blob_len / 2..].to_vec()),
        offset: blob_len / 2,
        length: None,
        pin_uv_auth_param: None,
        pin_uv_auth_protocol: None,
    };
    let large_blobs_response = large_blobs.process_command(
        &mut persistent_store,
        &mut pin_protocol_v1,
        large_blobs_params,
    );
    assert_eq!(
        large_blobs_response,
        Ok(ResponseData::AuthenticatorLargeBlobs(None))
    );

    let large_blobs_params = AuthenticatorLargeBlobsParameters {
        get: Some(blob_len),
        set: None,
        offset: 0,
        length: None,
        pin_uv_auth_param: None,
        pin_uv_auth_protocol: None,
    };
    let large_blobs_response = large_blobs.process_command(
        &mut persistent_store,
        &mut pin_protocol_v1,
        large_blobs_params,
    );
    match large_blobs_response.unwrap() {
        ResponseData::AuthenticatorLargeBlobs(Some(response)) => {
            assert_eq!(response.config, large_blob);
        }
        _ => panic!("Invalid response type"),
    };
}

#[test]
fn test_process_command_commit_unexpected_offset() {
    let mut persistent_store = PersistentStore::new();
    let pin_uv_auth_token = [0x55; 32];
    let mut pin_protocol_v1 = PinProtocolV1::new(pin_uv_auth_token, 0xFF);
    let mut large_blobs = LargeBlobs::new();

    let blob_len: usize = 200;
    let data_len: usize = blob_len - TRUNCATED_HASH_LEN;
    let mut large_blob = vec![0x1B; data_len];
    large_blob.extend_from_slice(&Sha256::digest(&large_blob[..])[..TRUNCATED_HASH_LEN]);

    let large_blobs_params = AuthenticatorLargeBlobsParameters {
        get: None,
        set: Some(large_blob[..blob_len / 2].to_vec()),
        offset: 0,
        length: Some(blob_len),
        pin_uv_auth_param: None,
        pin_uv_auth_protocol: None,
    };
    let large_blobs_response = large_blobs.process_command(
        &mut persistent_store,
        &mut pin_protocol_v1,
        large_blobs_params,
    );
    assert_eq!(
        large_blobs_response,
        Ok(ResponseData::AuthenticatorLargeBlobs(None))
    );

    let large_blobs_params = AuthenticatorLargeBlobsParameters {
        get: None,
        set: Some(large_blob[blob_len / 2..].to_vec()),
        // The offset is 1 too big.
        offset: blob_len / 2 + 1,
        length: None,
        pin_uv_auth_param: None,
        pin_uv_auth_protocol: None,
    };
    let large_blobs_response = large_blobs.process_command(
        &mut persistent_store,
        &mut pin_protocol_v1,
        large_blobs_params,
    );
    assert_eq!(
        large_blobs_response,
        Err(Ctap2StatusCode::CTAP1_ERR_INVALID_SEQ),
    );
}

#[test]
fn test_process_command_commit_unexpected_length() {
    let mut persistent_store = PersistentStore::new();
    let pin_uv_auth_token = [0x55; 32];
    let mut pin_protocol_v1 = PinProtocolV1::new(pin_uv_auth_token, 0xFF);
    let mut large_blobs = LargeBlobs::new();

    let blob_len: usize = 200;
    let data_len: usize = blob_len - TRUNCATED_HASH_LEN;
    let mut large_blob = vec![0x1B; data_len];
    large_blob.extend_from_slice(&Sha256::digest(&large_blob[..])[..TRUNCATED_HASH_LEN]);

    let large_blobs_params = AuthenticatorLargeBlobsParameters {
        get: None,
        set: Some(large_blob[..blob_len / 2].to_vec()),
        offset: 0,
        // The length is 1 too small.
        length: Some(blob_len - 1),
        pin_uv_auth_param: None,
        pin_uv_auth_protocol: None,
    };
    let large_blobs_response = large_blobs.process_command(
        &mut persistent_store,
        &mut pin_protocol_v1,
        large_blobs_params,
    );
    assert_eq!(
        large_blobs_response,
        Ok(ResponseData::AuthenticatorLargeBlobs(None))
    );

    let large_blobs_params = AuthenticatorLargeBlobsParameters {
        get: None,
        set: Some(large_blob[blob_len / 2..].to_vec()),
        offset: blob_len / 2,
        length: None,
        pin_uv_auth_param: None,
        pin_uv_auth_protocol: None,
    };
    let large_blobs_response = large_blobs.process_command(
        &mut persistent_store,
        &mut pin_protocol_v1,
        large_blobs_params,
    );
    assert_eq!(
        large_blobs_response,
        Err(Ctap2StatusCode::CTAP1_ERR_INVALID_PARAMETER),
    );
}

#[test]
fn test_process_command_commit_unexpected_hash() {
    let mut persistent_store = PersistentStore::new();
    let pin_uv_auth_token = [0x55; 32];
    let mut pin_protocol_v1 = PinProtocolV1::new(pin_uv_auth_token, 0xFF);
    let mut large_blobs = LargeBlobs::new();

    let blob_len: usize = 20;
    // This blob does not have an appropriate hash.
    let large_blob = vec![0x1B; blob_len];

    let large_blobs_params = AuthenticatorLargeBlobsParameters {
        get: None,
        set: Some(large_blob.to_vec()),
        offset: 0,
        length: Some(blob_len),
        pin_uv_auth_param: None,
        pin_uv_auth_protocol: None,
    };
    let large_blobs_response = large_blobs.process_command(
        &mut persistent_store,
        &mut pin_protocol_v1,
        large_blobs_params,
    );
    assert_eq!(
        large_blobs_response,
        Err(Ctap2StatusCode::CTAP2_ERR_INTEGRITY_FAILURE),
    );
}

#[test]
fn test_process_command_commit_with_pin() {
    let mut persistent_store = PersistentStore::new();
    let pin_uv_auth_token = [0x55; 32];
    let mut pin_protocol_v1 = PinProtocolV1::new(pin_uv_auth_token, 0xFF);
    let mut large_blobs = LargeBlobs::new();

    let blob_len: usize = 20;
    let data_len: usize = blob_len - TRUNCATED_HASH_LEN;
    let mut large_blob = vec![0x1B; data_len];
    large_blob.extend_from_slice(&Sha256::digest(&large_blob[..])[..TRUNCATED_HASH_LEN]);

    persistent_store.set_pin(&[0u8; 16]);
    let pin_uv_auth_param = Some(vec![
        0x68, 0x0C, 0x3F, 0x6A, 0x62, 0x47, 0xE6, 0x7C, 0x23, 0x1F, 0x79, 0xE3, 0xDC, 0x6D,
        0xC3, 0xDE,
    ]);

    let large_blobs_params = AuthenticatorLargeBlobsParameters {
        get: None,
        set: Some(large_blob),
        offset: 0,
        length: Some(blob_len),
        pin_uv_auth_param,
        pin_uv_auth_protocol: Some(1),
    };
    let large_blobs_response = large_blobs.process_command(
        &mut persistent_store,
        &mut pin_protocol_v1,
        large_blobs_params,
    );
    assert_eq!(
        large_blobs_response,
        Ok(ResponseData::AuthenticatorLargeBlobs(None))
    );
}
