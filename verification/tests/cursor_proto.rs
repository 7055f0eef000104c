use agt::cursor::proto::{
    extract_field13_refs, extract_field1_blobs, extract_field26_varint, extract_field4_bytes,
    extract_field9_bytes, extract_ld_field, read_varint,
};

#[test]
fn test_extract_field1_blobs_empty() {
    assert!(extract_field1_blobs(&[]).is_empty());
}

#[test]
fn test_extract_field1_single() {
    // field 1, wire type 2 (length-delimited), length 32
    let mut data = vec![0x0A, 0x20];
    let hash: [u8; 32] = (0..32u8).collect::<Vec<_>>().try_into().unwrap();
    data.extend_from_slice(&hash);
    let result = extract_field1_blobs(&data);
    assert_eq!(result.len(), 1);
    assert_eq!(result[0], hash);
}

#[test]
fn test_extract_field1_two() {
    let mut data = vec![];
    let hash1: [u8; 32] = [0xAA; 32];
    let hash2: [u8; 32] = [0xBB; 32];
    for hash in [&hash1, &hash2] {
        data.push(0x0A);
        data.push(0x20);
        data.extend_from_slice(hash);
    }
    let result = extract_field1_blobs(&data);
    assert_eq!(result.len(), 2);
    assert_eq!(result[0], hash1);
    assert_eq!(result[1], hash2);
}

#[test]
fn test_skip_non_field1() {
    // field 2, wire type 2, length 32 (should be skipped)
    let mut data = vec![0x12, 0x20];
    data.extend_from_slice(&[0xCC; 32]);
    // then field 1
    data.push(0x0A);
    data.push(0x20);
    let hash: [u8; 32] = [0xDD; 32];
    data.extend_from_slice(&hash);
    let result = extract_field1_blobs(&data);
    assert_eq!(result.len(), 1);
    assert_eq!(result[0], hash);
}

fn encode_varint_field(field_num: u64, value: u64) -> Vec<u8> {
    let tag = field_num << 3; // wire type 0
    let mut out = Vec::new();
    for v in [tag, value] {
        let mut v = v;
        loop {
            let byte = (v & 0x7F) as u8;
            v >>= 7;
            if v != 0 {
                out.push(byte | 0x80);
            } else {
                out.push(byte);
                break;
            }
        }
    }
    out
}

fn encode_ld_field(field_num: u64, payload: &[u8]) -> Vec<u8> {
    let tag = (field_num << 3) | 2; // wire type 2
    let mut out = Vec::new();
    // encode tag varint
    let mut v = tag;
    loop {
        let byte = (v & 0x7F) as u8;
        v >>= 7;
        if v != 0 {
            out.push(byte | 0x80);
        } else {
            out.push(byte);
            break;
        }
    }
    // encode length varint
    let mut l = payload.len() as u64;
    loop {
        let byte = (l & 0x7F) as u8;
        l >>= 7;
        if l != 0 {
            out.push(byte | 0x80);
        } else {
            out.push(byte);
            break;
        }
    }
    out.extend_from_slice(payload);
    out
}

#[test]
fn test_extract_field4_absent() {
    // Only a field-1 entry — no field 4.
    let mut data = vec![0x0A, 0x20];
    data.extend_from_slice(&[0x11; 32]);
    assert!(extract_field4_bytes(&data).is_none());
}

#[test]
fn test_extract_field4_present() {
    let payload = b"hello field4";
    let data = encode_ld_field(4, payload);
    let result = extract_field4_bytes(&data);
    assert_eq!(result.as_deref(), Some(payload.as_ref()));
}

#[test]
fn test_extract_field4_after_field1() {
    let hash: [u8; 32] = [0xAB; 32];
    let mut data = encode_ld_field(1, &hash);
    let payload = b"streaming json";
    data.extend(encode_ld_field(4, payload));
    let result = extract_field4_bytes(&data);
    assert_eq!(result.as_deref(), Some(payload.as_ref()));
}

#[test]
fn test_extract_field13_refs_absent() {
    // Blob with only field-1 entries — field 13 should return empty.
    let hash: [u8; 32] = [0x11; 32];
    let data = encode_ld_field(1, &hash);
    assert!(extract_field13_refs(&data).is_empty());
}

#[test]
fn test_extract_field13_refs_present() {
    let hash: [u8; 32] = [0xAA; 32];
    let data = encode_ld_field(13, &hash);
    let result = extract_field13_refs(&data);
    assert_eq!(result.len(), 1);
    assert_eq!(result[0], hash);
}

#[test]
fn test_extract_field13_multiple() {
    let hash1: [u8; 32] = [0xAA; 32];
    let hash2: [u8; 32] = [0xBB; 32];
    let mut data = encode_ld_field(13, &hash1);
    data.extend(encode_ld_field(13, &hash2));
    let result = extract_field13_refs(&data);
    assert_eq!(result.len(), 2);
    assert_eq!(result[0], hash1);
    assert_eq!(result[1], hash2);
}

#[test]
fn test_extract_field13_mixed_with_field1() {
    // Field 1 entries must not bleed into field-13 results.
    let f1_hash: [u8; 32] = [0x11; 32];
    let f13_hash: [u8; 32] = [0xCC; 32];
    let mut data = encode_ld_field(1, &f1_hash);
    data.extend(encode_ld_field(13, &f13_hash));
    data.extend(encode_ld_field(1, &f1_hash));
    let f1 = extract_field1_blobs(&data);
    let f13 = extract_field13_refs(&data);
    assert_eq!(f1.len(), 2);
    assert_eq!(f13.len(), 1);
    assert_eq!(f13[0], f13_hash);
}

#[test]
fn test_extract_field26_absent() {
    // A blob with only field-1 entries — no field 26.
    let hash: [u8; 32] = [0x11; 32];
    let data = encode_ld_field(1, &hash);
    assert!(extract_field26_varint(&data).is_none());
}

#[test]
fn test_extract_field26_present() {
    let ts_ms: u64 = 1_700_000_000_000;
    let data = encode_varint_field(26, ts_ms);
    assert_eq!(extract_field26_varint(&data), Some(ts_ms));
}

#[test]
fn test_extract_field26_after_ld_fields() {
    // Field 26 appears after several length-delimited fields (realistic snapshot layout).
    let hash: [u8; 32] = [0xAB; 32];
    let mut data = encode_ld_field(1, &hash);
    data.extend(encode_ld_field(9, b"file:///home/user/project"));
    let ts_ms: u64 = 1_777_000_000_000;
    data.extend(encode_varint_field(26, ts_ms));
    assert_eq!(extract_field26_varint(&data), Some(ts_ms));
}

#[test]
fn test_extract_field26_returns_first() {
    // Only the first occurrence should be returned.
    let mut data = encode_varint_field(26, 111);
    data.extend(encode_varint_field(26, 222));
    assert_eq!(extract_field26_varint(&data), Some(111));
}

#[test]
fn a_varint_of_ten_bytes_is_read() {
    let data = [0xff, 0xff, 0xff, 0xff, 0xff, 0xff, 0xff, 0xff, 0xff, 0x01];
    assert_eq!(read_varint(&data, 0), Some((u64::MAX, 10)));
    assert_eq!(read_varint(&[0x96, 0x01], 0), Some((150, 2)));
    assert_eq!(read_varint(&[7, 0xac, 0x02], 1), Some((300, 3)));
}

#[test]
fn a_varint_that_breaks_off_is_none() {
    assert_eq!(read_varint(&[], 0), None);
    assert_eq!(read_varint(&[0x80, 0x80], 0), None);
}

#[test]
fn a_reference_of_another_length_is_passed_over() {
    let mut data = encode_ld_field(1, b"short");
    let hash: [u8; 32] = [7; 32];
    data.extend(encode_ld_field(1, &hash));
    assert_eq!(extract_field1_blobs(&data), vec![hash]);
}

#[test]
fn fields_of_fixed_width_are_skipped() {
    let mut data = vec![(2 << 3) | 1, 1, 2, 3, 4, 5, 6, 7, 8];
    data.extend([(3 << 3) | 5, 1, 2, 3, 4]);
    data.extend(encode_ld_field(9, b"file:///x"));
    assert_eq!(extract_field9_bytes(&data), Some(b"file:///x".to_vec()));
    assert_eq!(extract_ld_field(&data, 8), None);
}

#[test]
fn references_of_two_messages_follow_each_other() {
    let mut a = vec![0x08, 0x05, 0x0A, 0x20];
    a.extend_from_slice(&[1; 32]);
    let mut b = vec![0x0A, 0x20];
    b.extend_from_slice(&[2; 32]);
    b.extend_from_slice(&[0x0A, 0x20]);
    b.extend_from_slice(&[1; 32]);
    let both = [a.clone(), b.clone()].concat();
    let parts = [extract_field1_blobs(&a), extract_field1_blobs(&b)].concat();
    assert_eq!(extract_field1_blobs(&both), parts);
    assert_eq!(parts, vec![[1; 32], [2; 32], [1; 32]]);
}
