use vauth::seal_blob::{split_seal_blob, SealBlobError};

#[test]
fn splits_private_and_public_parts() {
    let blob = vec![0, 0, 0, 3, 10, 11, 12, 20, 21];
    assert_eq!(split_seal_blob(&blob), Ok((vec![10, 11, 12], vec![20, 21])));
    assert_eq!(split_seal_blob(&[0, 0, 0, 0]), Ok((vec![], vec![])));
    assert_eq!(split_seal_blob(&[0, 0, 0, 2, 1, 2]), Ok((vec![1, 2], vec![])));
}

#[test]
fn truncated_blobs() {
    assert_eq!(split_seal_blob(&[0, 0, 1]), Err(SealBlobError::Truncated));
    assert_eq!(split_seal_blob(&[]), Err(SealBlobError::Truncated));
    assert_eq!(split_seal_blob(&[0, 0, 0, 3, 1, 2]), Err(SealBlobError::PrivateTruncated));
    assert_eq!(split_seal_blob(&[0xff, 0xff, 0xff, 0xff, 1]), Err(SealBlobError::PrivateTruncated));
    assert_eq!(split_seal_blob(&[0, 0, 1, 0]), Err(SealBlobError::PrivateTruncated));
}
