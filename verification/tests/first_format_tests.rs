use ii_proj_rest_server::file_format_prep::db_manager::plan_init_from_csv;
use ii_proj_rest_server::file_format_prep::storage_builder::create_cell;
use ii_proj_rest_server::file_format_prep::col_data::{after_chunk, AfterChunk, ColData, FfpIntDecoder};
use ii_proj_rest_server::file_format_prep::metadata_structs::{
    check_if_break_loop, read_metadata_init_stage, read_metadata_str_stage, read_metadata_u8_stage, DbMetadata,
    MetadataReader, ReadStages,
};

fn read_whole(bytes: &[u8], chunk: usize) -> Result<DbMetadata, std::io::Error> {
    let mut reader = MetadataReader::new();
    let mut at = 0;
    loop {
        let end = std::cmp::min(at + chunk, bytes.len());
        let part = &bytes[at..end];
        at = end;
        if let Some(m) = reader.feed(part.len(), part)? {
            return Ok(m);
        }
    }
}

#[test]
fn new_metadata_gives_each_column_its_first_file() {
    let m = DbMetadata::new(vec![0, 1], vec![String::from("id"), String::from("name")]).unwrap();
    assert_eq!(m.col_count(), 2);
    assert_eq!(m.col_files_count(), &vec![1u8, 1u8]);
    let (k, v) = m.col_files_paths().entry_at(1);
    assert_eq!(k, "name");
    assert_eq!(v, &vec![String::from("./db_data/name_0")]);
    assert_eq!(*m.col_names_idxs().get("name").unwrap(), 1);
}

#[test]
fn new_metadata_refuses_bad_parts() {
    assert!(DbMetadata::new(vec![0], vec![]).is_err());
    assert!(DbMetadata::new(vec![2], vec![String::from("a")]).is_err());
    assert!(DbMetadata::new(vec![0, 0], vec![String::from("a"), String::from("a")]).is_err());
    assert!(DbMetadata::new(vec![0], vec![String::from("1a")]).is_err());
    assert!(DbMetadata::new_empty().is_ok());
}

#[test]
fn metadata_saved_reads_back_in_any_chunks() {
    let mut m = DbMetadata::new(vec![0, 1], vec![String::from("id"), String::from("name")]).unwrap();
    m.append_new_file_path(&String::from("name"), String::from("./db_data/name_1")).unwrap();
    let bytes = m.to_file_bytes();
    // the first chunk must hold the magic word and the column count
    assert!(read_whole(&bytes, 5).is_err());
    for chunk in [6usize, 7, 9, 64, 1000] {
        let back = read_whole(&bytes, chunk).unwrap();
        assert_eq!(back.col_count(), 2);
        assert_eq!(back.col_types(), &vec![0u8, 1u8]);
        assert_eq!(back.col_files_count(), &vec![1u8, 2u8]);
        assert_eq!(back.col_names(), &vec![String::from("id"), String::from("name")]);
        assert_eq!(
            back.col_files_paths().get("name").unwrap(),
            &vec![String::from("./db_data/name_0"), String::from("./db_data/name_1")]
        );
        assert_eq!(back.to_file_bytes(), bytes);
    }
}

#[test]
fn empty_metadata_is_six_bytes() {
    let m = DbMetadata::new_empty().unwrap();
    let bytes = m.to_file_bytes();
    assert_eq!(bytes, vec![0, 0x0F, 0x1F, 0xAA, 0, 0]);
    let back = read_whole(&bytes, 100).unwrap();
    assert_eq!(back.col_count(), 0);
}

#[test]
fn refused_metadata_files() {
    // wrong magic word
    assert!(read_whole(&[1, 2, 3, 4, 0, 0], 10).is_err());
    // too little data
    assert!(read_whole(&[0, 0x0F, 0x1F], 10).is_err());
    // a column with no file
    assert!(read_whole(&[0, 0x0F, 0x1F, 0xAA, 0, 1, 0, 0, b'a', 0, b'p', 0], 100).is_err());
    // a type above one
    assert!(read_whole(&[0, 0x0F, 0x1F, 0xAA, 0, 1, 1, 2, b'a', 0, b'p', 0], 100).is_err());
    // the file ends inside a name
    assert!(read_whole(&[0, 0x0F, 0x1F, 0xAA, 0, 1, 1, 1, b'a'], 100).is_err());
}

#[test]
fn adding_a_path_to_an_unknown_column_is_refused() {
    let mut m = DbMetadata::new(vec![0], vec![String::from("id")]).unwrap();
    assert!(m.append_new_file_path(&String::from("other"), String::from("./x")).is_err());
    assert_eq!(m.col_files_count(), &vec![1u8]);
}

#[test]
fn stage_helpers() {
    let buf = [0u8, 0x0F, 0x1F, 0xAA, 0, 2];
    let mut magic = 0u32;
    let mut count = 0u16;
    let s = read_metadata_init_stage(6, &buf, &mut magic, &mut count).unwrap();
    assert_eq!(s, ReadStages::FilesCountStage);
    assert_eq!(count, 2);

    let buf = [3u8, 0, 7];
    let (mut idx, mut progress) = (0usize, 0usize);
    let mut res = Vec::new();
    assert!(read_metadata_u8_stage(3, &buf, 3, &mut idx, &mut progress, &mut res, ReadStages::FilesCountStage).is_err());
    assert_eq!(res, vec![3u8]);
    let (mut idx, mut progress) = (0usize, 0usize);
    let mut res = Vec::new();
    let s = read_metadata_u8_stage(2, &[1u8, 0u8], 3, &mut idx, &mut progress, &mut res, ReadStages::ColTypesStage).unwrap();
    assert_eq!(s, ReadStages::ColTypesStage);
    assert_eq!((idx, progress), (2, 2));

    let buf = b"ab\0c";
    let (mut idx, mut progress) = (0usize, 0usize);
    let mut names = vec![String::new(), String::new()];
    let s = read_metadata_str_stage(4, buf, 2, &mut idx, &mut progress, &mut names, ReadStages::ColNameStage).unwrap();
    assert_eq!(s, ReadStages::ColNameStage);
    assert_eq!(names, vec![String::from("ab"), String::from("c")]);
    assert_eq!(progress, 1);

    assert!(check_if_break_loop(0, &ReadStages::EndedReading).unwrap());
    assert!(check_if_break_loop(0, &ReadStages::ColNameStage).is_err());
    assert!(check_if_break_loop(3, &ReadStages::EndedReading).is_err());
    assert!(!check_if_break_loop(3, &ReadStages::ColNameStage).unwrap());
}

#[test]
fn int_batches_decode_with_the_minimum_first() {
    let bytes = ColData::<i64>::vle_encode(&[5, 3, 8]).unwrap();
    assert_eq!(bytes, vec![6, 2, 5]);
    let mut d = FfpIntDecoder::new();
    for b in &bytes {
        d.push_byte(*b).unwrap();
    }
    assert_eq!(d.values(), &vec![3i64, 5, 8]);
    assert!(ColData::<i64>::vle_encode(&[]).is_err());
    assert!(ColData::<i64>::vle_encode(&[0; 11]).is_err());
}

#[test]
fn every_tenth_row_starts_a_new_batch() {
    let first: Vec<i64> = (0..10).map(|x| 100 - x).collect();
    let second: Vec<i64> = vec![-300, 1000];
    let mut bytes = ColData::<i64>::vle_encode(&first).unwrap();
    bytes.extend(ColData::<i64>::vle_encode(&second).unwrap());
    let mut d = FfpIntDecoder::new();
    for b in &bytes {
        d.push_byte(*b).unwrap();
    }
    let mut expected: Vec<i64> = vec![91];
    expected.extend((0..9).map(|x| 100 - x));
    expected.extend(vec![-300, 1000]);
    assert_eq!(d.values(), &expected);
}

#[test]
fn overlong_values_are_refused() {
    let mut d = FfpIntDecoder::new();
    for _ in 0..10 {
        d.push_byte(0x80).unwrap();
    }
    assert!(d.push_byte(0x01).is_err());
}

#[test]
fn steps_after_reading_a_chunk() {
    assert!(matches!(after_chunk(0, 5, 10, false), AfterChunk::Decode));
    assert!(matches!(after_chunk(10, 0, 10, true), AfterChunk::NextFile));
    assert!(matches!(after_chunk(10, 0, 10, false), AfterChunk::Done));
}

#[test]
fn a_cell_holds_each_value_big_endian_eight_times() {
    let cell = create_cell(&vec![0x0102030405060708, -1]);
    let d = cell.data();
    for run in 0..8 {
        assert_eq!(&d[run * 8..run * 8 + 8], &[1, 2, 3, 4, 5, 6, 7, 8]);
        assert_eq!(&d[64 + run * 8..64 + run * 8 + 8], &[0xff; 8]);
    }
    assert!(d[128..].iter().all(|b| *b == 0));
}

#[test]
fn a_csv_plan_parses_int_columns_into_batches() {
    let ints: Vec<String> = (1..=12).map(|i| i.to_string()).collect();
    let cols = vec![ints, vec![String::from("x"), String::from("y")]];
    let (meta, plan) =
        plan_init_from_csv(vec![0, 1], vec![String::from("a"), String::from("b")], &cols, b',').unwrap();
    assert_eq!(meta.col_names().len(), 2);
    assert_eq!(plan.len(), 1);
    assert_eq!(plan[0].0, "a");
    assert_eq!(plan[0].1, vec![(1..=10).collect::<Vec<i64>>(), vec![11, 12]]);
}

#[test]
fn a_csv_plan_refuses_other_delimiters_and_bad_ints() {
    let cols = vec![vec![String::from("1")]];
    match plan_init_from_csv(vec![0], vec![String::from("a")], &cols, b';') {
        Err(m) => assert_eq!(m, "We support either csv or tsv"),
        Ok(_) => panic!("a semicolon is not a delimiter"),
    }
    let bad = vec![vec![String::from("1"), String::from("x1")]];
    assert!(plan_init_from_csv(vec![0], vec![String::from("a")], &bad, b'\t').is_err());
    assert!(plan_init_from_csv(vec![0, 1], vec![String::from("a")], &cols, b',').is_err());
}
