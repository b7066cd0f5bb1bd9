use file_net::tester::{check_layout, generate_layout, LayoutError};

#[test]
fn generated_files_pass_the_check() {
    for len in [16usize, 17, 100, 70_000, 300_000] {
        let data = generate_layout(len);
        assert_eq!(data.len(), len);
        assert_eq!(&data[..8], &(len as u64).to_le_bytes());
        assert_eq!(check_layout(&data, Some(len)), Ok(()));
        assert_eq!(check_layout(&data, None), Ok(()));
    }
}

#[test]
fn wrong_expected_length_is_reported() {
    let data = generate_layout(64);
    assert_eq!(
        check_layout(&data, Some(65)),
        Err(LayoutError::LengthMismatch { expected: 65, actual: 64 })
    );
}

#[test]
fn truncated_file_is_reported() {
    let mut data = generate_layout(64);
    data.pop();
    assert_eq!(
        check_layout(&data, None),
        Err(LayoutError::SizeMismatch { declared: 64, actual: 63 })
    );
}

#[test]
fn corrupted_byte_is_reported() {
    let mut data = generate_layout(5000);
    data[20] ^= 1;
    assert!(matches!(check_layout(&data, None), Err(LayoutError::FileHashMismatch { .. })));
}

#[test]
fn too_short_file_is_reported() {
    assert_eq!(check_layout(&[1, 2, 3], None), Err(LayoutError::TooShort));
}

#[test]
fn bad_record_hash_is_reported_with_its_place() {
    // Length word and one record of 2 bytes whose stored hash is 0; the file
    // hash is taken from the mismatch that a placeholder produces.
    let mut body: Vec<u8> = Vec::new();
    body.extend_from_slice(&28u64.to_le_bytes());
    body.extend_from_slice(&2u16.to_le_bytes());
    body.extend_from_slice(&[7, 7]);
    body.extend_from_slice(&0u64.to_le_bytes());
    let mut data = body.clone();
    data.extend_from_slice(&0u64.to_le_bytes());
    let stored = match check_layout(&data, None) {
        Err(LayoutError::FileHashMismatch { computed, .. }) => computed,
        other => panic!("{:?}", other),
    };
    let mut data = body;
    data.extend_from_slice(&stored.to_le_bytes());
    match check_layout(&data, None) {
        Err(LayoutError::RecordHashMismatch { index, from, to, actual, .. }) => {
            assert_eq!((index, from, to, actual), (0, 8, 12, 0));
        }
        other => panic!("{:?}", other),
    }
}
