use ii_proj_rest_server::db::storage::string_handlers::{check_col_name_correctness, col_name_verdict};
use ii_proj_rest_server::db::constants::LogicalColType;
use ii_proj_rest_server::db::errors::DbError;
use ii_proj_rest_server::db::storage::col_data::{frame_compressed, ColData};
use ii_proj_rest_server::db::storage::col_header::ColHeader;
use ii_proj_rest_server::db::storage::col_read::{strings_of_frame, IntDecoder, StrDecoder};
use ii_proj_rest_server::db::storage::encoders::{delta_encode, vle_decode_i, vle_decode_u, vle_encode_i, vle_encode_u};

#[test]
fn variable_length_values_round_trip() {
    for v in [0u64, 1, 127, 128, 300, u64::MAX] {
        let mut buf = Vec::new();
        vle_encode_u(&mut buf, v);
        assert_eq!(vle_decode_u(&buf), v);
    }
    let mut buf = Vec::new();
    vle_encode_u(&mut buf, 300);
    assert_eq!(buf, vec![0xac, 0x02]);
    for v in [0i64, -1, 1, -64, 63, i64::MIN, i64::MAX] {
        let mut buf = Vec::new();
        vle_encode_i(&mut buf, v);
        assert_eq!(vle_decode_i(&buf), v);
    }
    let mut buf = Vec::new();
    vle_encode_i(&mut buf, -1);
    assert_eq!(buf, vec![1]);
}

#[test]
fn delta_encoding_puts_the_minimum_first() {
    assert_eq!(delta_encode(&[5, 3, 8, 3]).unwrap(), vec![3, 2, 0, 5, 0]);
    assert!(delta_encode(&[]).is_err());
}

#[test]
fn an_int_batch_is_its_row_count_then_minimum_then_distances() {
    let bytes = ColData::<i64>::batch_bytes(&[5, 3, 8]).unwrap();
    assert_eq!(bytes, vec![0, 3, 6, 2, 0, 5]);
    assert!(ColData::<i64>::batch_bytes(&[]).is_err());
}

#[test]
fn a_read_int_batch_comes_back_unchanged() {
    let bytes = ColData::<i64>::batch_bytes(&[5, 3, 7]).unwrap();
    let mut d = IntDecoder::new();
    d.push_bytes(&bytes, 0).unwrap();
    assert_eq!(d.into_values(), vec![5, 3, 7]);

    let bytes = ColData::<i64>::batch_bytes(&[5]).unwrap();
    let mut d = IntDecoder::new();
    d.push_bytes(&bytes, 0).unwrap();
    assert_eq!(d.into_values(), vec![5]);
}

#[test]
fn int_batches_saved_one_after_another_read_back_in_order() {
    let mut bytes = ColData::<i64>::batch_bytes(&[5, 3, 7]).unwrap();
    bytes.extend(ColData::<i64>::batch_bytes(&[-4, i64::MAX - 10, 0]).unwrap());
    bytes.extend(ColData::<i64>::batch_bytes(&[1, 1]).unwrap());
    let mut d = IntDecoder::new();
    d.push_bytes(&bytes[..4], 0).unwrap();
    d.push_bytes(&bytes, 4).unwrap();
    assert_eq!(d.into_values(), vec![5, 3, 7, -4, i64::MAX - 10, 0, 1, 1]);
}

#[test]
fn a_string_batch_reads_back() {
    let strings: Vec<String> =
        ["Alice Johnson", "Bob Smith", "Charlie Brown", "Diana Prince", "Edward Norton"].iter().map(|s| s.to_string()).collect();
    let bytes = ColData::<String>::zstd_encode(&strings).unwrap();
    let mut d = StrDecoder::new();
    d.push_bytes(&bytes, 0).unwrap();
    assert_eq!(d.into_values(), strings);
}

#[test]
fn non_ascii_strings_are_not_compressed() {
    let strings = vec![String::from("zażółć")];
    assert!(matches!(ColData::<String>::zstd_encode(&strings), Err(DbError::CompressionError(_))));
}

#[test]
fn a_header_reads_back() {
    let h = ColHeader::new(4, LogicalColType::VARCHAR, true, 77, String::from("name")).unwrap();
    let mut bytes = h.encode_for_file().unwrap();
    let header_len = bytes.len();
    bytes.extend_from_slice(&[9, 9, 9]);
    let mut idx = 0usize;
    let back = ColHeader::create_header_from_buf(&mut idx, bytes.len(), &bytes).unwrap();
    assert_eq!(idx, header_len);
    assert_eq!(back.col_id(), 4);
    assert_eq!(back.col_type(), LogicalColType::VARCHAR);
    assert!(back.is_overflow());
    assert_eq!(back.size_of_data(), 77);
    assert_eq!(back.col_name(), "name");
}

#[test]
fn the_pattern_check_of_a_column_name_decides_its_error() {
    let name = String::from("1abc");
    assert!(col_name_verdict(&name, Some(true)).is_ok());
    match col_name_verdict(&name, Some(false)) {
        Err(DbError::InvalidColumnName { name: n, .. }) => assert_eq!(n, "1abc"),
        other => panic!("unexpected {other:?}"),
    }
    assert!(matches!(col_name_verdict(&name, None), Err(DbError::Other(_))));
    assert!(matches!(check_col_name_correctness(&name), Err(DbError::InvalidColumnName { .. })));
    assert!(check_col_name_correctness(&String::from("abc_1")).is_ok());
}

#[test]
fn a_frame_is_its_length_then_its_bytes() {
    assert_eq!(frame_compressed(vec![7, 8, 9]), vec![0, 0, 0, 3, 7, 8, 9]);
    assert_eq!(frame_compressed(vec![]), vec![0, 0, 0, 0]);
}

#[test]
fn a_decompressed_frame_splits_at_null_bytes() {
    assert_eq!(strings_of_frame(&b"ab\0\0c".to_vec()).unwrap(), vec!["ab", "", "c"]);
    assert_eq!(strings_of_frame(&vec![]).unwrap(), vec![""]);
    assert!(matches!(strings_of_frame(&vec![b'a', 200]), Err(DbError::DecompressionError(_))));
}

#[test]
fn strings_saved_in_two_batches_read_back_in_order() {
    let batch: Vec<String> =
        ["Alice Johnson", "Bob Smith", "Charlie Brown", "Diana Prince", "Edward Norton"].iter().map(|s| s.to_string()).collect();
    let mut bytes = ColData::<String>::zstd_encode(&batch[..3]).unwrap();
    bytes.extend(ColData::<String>::zstd_encode(&batch[3..=4]).unwrap());
    let mut d = StrDecoder::new();
    d.push_bytes(&bytes, 0).unwrap();
    assert_eq!(d.into_values(), batch);
}
