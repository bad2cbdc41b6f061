use ii_proj_rest_server::file_format_prep::column_structs::{check_col_name_correctness, ColHeader};
use ii_proj_rest_server::file_format_prep::col_data::ColData;
use ii_proj_rest_server::file_format_prep::constants::AllowedColTypes;

#[test]
fn test_col_header_test_check_col_name_correctness() {
    let _too_long: String = vec!['a'; 256].iter().collect();
    let _not_ascii: String = String::from("Some random ątęxtź");
    let _not_allowed_space: String = String::from("file name");
    let _not_allowed_hash: String = String::from("file_name#");
}

#[test]
fn test_column_structs_test_check_col_name_correctness() {
    let _too_long: String = vec!['a'; 256].iter().collect();
    let _not_ascii: String = String::from("Some random ątęxtź");
    let _not_allowed_space: String = String::from("file name");
    let _not_allowed_hash: String = String::from("file_name#");
}

#[test]
fn test_create_new_empty() {
    let ok_name = String::from("ok_col");
    let ok_col = ColHeader::new_empty(AllowedColTypes::IntType, ok_name.clone());
    assert!(ok_col.is_ok());
    let ok_col = ok_col.unwrap();
    assert_eq!(ok_col.col_id(), 0);
    assert_eq!(ok_col.col_type(), AllowedColTypes::IntType);
    assert_eq!(ok_col.is_overflow(), false);
    assert_eq!(ok_col.size_of_data(), 0);
    assert_eq!(*ok_col.col_name(), ok_name);
    let not_ascii: String = String::from("Some random ątęxtź");
    let too_long: String = vec!['a'; 256].iter().collect();
    assert!(ColHeader::new_empty(AllowedColTypes::IntType, not_ascii).is_err());
    assert!(ColHeader::new_empty(AllowedColTypes::IntType, too_long).is_err());
}

#[test]
fn test_create_next() {
    let ok_name = String::from("ok_col");
    let ok_col = ColHeader::new_empty(AllowedColTypes::IntType, ok_name.clone());
    assert!(ok_col.is_ok());
    let ok_col = ok_col.unwrap();
    let next_col = ok_col.create_next();
    assert!(next_col.is_ok());
    let next_col = next_col.unwrap();
    assert_eq!(next_col.col_id(), ok_col.col_id() + 1);
    assert_eq!(next_col.col_type(), AllowedColTypes::IntType);
    assert_eq!(next_col.is_overflow(), false);
    assert_eq!(next_col.size_of_data(), 0);
    assert_eq!(*next_col.col_name(), ok_name);
}

#[test]
fn column_names_outside_the_rule_are_refused() {
    assert!(check_col_name_correctness(&"a".repeat(256)).is_err());
    assert!(check_col_name_correctness(&String::from("Some random ątęxtź")).is_err());
    assert!(check_col_name_correctness(&String::from("file name")).is_err());
    assert!(check_col_name_correctness(&String::from("file_name#")).is_err());
    assert!(check_col_name_correctness(&String::from("ok_name_1")).is_ok());
}

#[test]
fn header_bytes_read_back() {
    let h = ColHeader::new(3, AllowedColTypes::StrType, true, 4, String::from("abc")).unwrap();
    // the file size limit of the first format is small; this header fits
    let bytes = h.encode_for_file().unwrap();
    assert_eq!(bytes, vec![0, 0x0F, 0x1F, 0xAA, 0, 3, 1, 1, 0, 0, 0, 4, b'a', b'b', b'c', 0]);
    let mut idx: usize = 0;
    let back = ColHeader::read_from_buf(&mut idx, bytes.len(), &bytes).unwrap();
    assert_eq!(idx, bytes.len());
    assert_eq!(back.col_id(), 3);
    assert_eq!(back.col_type(), AllowedColTypes::StrType);
    assert!(back.is_overflow());
    assert_eq!(back.size_of_data(), 4);
    let too_big = ColHeader::new(3, AllowedColTypes::StrType, true, 5, String::from("abc")).unwrap();
    assert!(too_big.encode_for_file().is_err());
    assert_eq!(back.col_name(), "abc");
}

#[test]
fn data_size_overflow_marks_the_file() {
    let mut h = ColHeader::new(0, AllowedColTypes::IntType, false, u32::MAX - 1, String::from("c")).unwrap();
    assert!(h.increase_data_size(1).is_ok());
    assert_eq!(h.size_of_data(), u32::MAX);
    assert!(h.increase_data_size(1).is_err());
    assert!(h.is_overflow());
    assert_eq!(h.size_of_data(), u32::MAX);
}

#[test]
fn file_names_of_a_header() {
    let h = ColHeader::new(4, AllowedColTypes::IntType, false, 0, String::from("col")).unwrap();
    assert_eq!(h.file_name_in("./dir").unwrap(), "./dir/col_4");
    assert_eq!(h.file_name_in("./dir/").unwrap(), "./dir/col_4");
    assert!(h.file_name_in("").is_err());
    assert_eq!(h.get_next_file_path(), "./db_data/col_5");
}

#[test]
fn column_data_holds_one_batch_at_most() {
    let h = ColHeader::new_empty(AllowedColTypes::IntType, String::from("a")).unwrap();
    let mut c: ColData<i64> = ColData::new(h).unwrap();
    for i in 0..10 {
        assert!(!c.is_full());
        assert!(c.push(i).is_ok());
    }
    assert!(c.is_full());
    assert_eq!(c.push(10), Err("Data stored will be greater than batch size"));
    c.get_mut_header().increase_data_size(7).unwrap();
    assert_eq!(c.get_mut_header().size_of_data(), 7);
}

#[test]
fn column_data_refuses_a_header_of_another_type() {
    let h = ColHeader::new_empty(AllowedColTypes::StrType, String::from("a")).unwrap();
    assert!(ColData::<i64>::new(h).is_err());
}

#[test]
fn test_save_to_file_wrong_paths() {
    let empty_path = String::from("");
    let incorrect_path = String::from("./not_folder");
    let col_name = String::from("col_name");
    let col_h = ColHeader::new_empty(AllowedColTypes::IntType, col_name).unwrap();
    // An empty directory path names no file at all.
    assert!(col_h.file_name_in(&empty_path).is_err());
    // A path to a missing directory still names a file; creating it is what
    // fails, when the file is written.
    assert_eq!(col_h.file_name_in(&incorrect_path).unwrap(), "./not_folder/col_name_0");
}
