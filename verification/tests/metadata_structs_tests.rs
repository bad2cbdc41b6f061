use ii_proj_rest_server::db::constants::LogicalColType;
use ii_proj_rest_server::db::storage::metadata_structs::{
    are_columns_ok, create_dir_path, create_file_path, ColMetadata, ColumnMap,
};

fn get_correct_col_metadata_map() -> ColumnMap {
    let mut columns: ColumnMap = ColumnMap::new();
    let table_name = String::from("table");
    let col_name_1 = String::from("col_1");
    let col_name_2 = String::from("col_2");
    let mut col_1 = ColMetadata::new(&col_name_1, LogicalColType::INT64);
    let mut col_2 = ColMetadata::new(&col_name_2, LogicalColType::INT64);
    col_1.push_col_file(format!("./db/{}/{}", table_name, col_name_1));
    col_2.push_col_file(format!("./db/{}/{}", table_name, col_name_2));
    columns.insert(col_name_1, col_1);
    columns.insert(col_name_2, col_2);
    columns
}

#[test]
fn test_are_columns_ok_correct() {
    let columns = get_correct_col_metadata_map();
    let table_name = String::from("table");
    assert!(are_columns_ok(&columns, &table_name).is_ok());
}

#[test]
fn test_are_columns_ok_col_name_key_different_from_col_metadata() {
    let mut columns: ColumnMap = ColumnMap::new();
    let table_name = String::from("table");
    let col_name_1 = String::from("col_1");
    let col_name_2 = String::from("col_2");
    let mut col_1 = ColMetadata::new(&col_name_1, LogicalColType::INT64);
    let mut col_2 = ColMetadata::new(&col_name_2, LogicalColType::INT64);
    col_1.push_col_file(format!("./db/{}/{}", table_name, col_name_1));
    col_2.push_col_file(format!("./db/{}/{}", table_name, col_name_2));
    columns.insert(String::from("col_1_different"), col_1);
    columns.insert(col_name_2, col_2);
    assert!(are_columns_ok(&columns, &table_name).is_err());
}

#[test]
fn test_are_columns_ok_col_name_exceeds_max_len() {
    let mut columns: ColumnMap = ColumnMap::new();
    let table_name = String::from("table");
    let col_name_1 = String::from("a".repeat(269));
    let col_name_2 = String::from("col_2");
    let mut col_1 = ColMetadata::new(&col_name_1, LogicalColType::INT64);
    let mut col_2 = ColMetadata::new(&col_name_2, LogicalColType::INT64);
    col_1.push_col_file(format!("./db/{}/{}", table_name, col_name_1));
    col_2.push_col_file(format!("./db/{}/{}", table_name, col_name_2));
    columns.insert(col_name_1, col_1);
    columns.insert(col_name_2, col_2);
    assert!(are_columns_ok(&columns, &table_name).is_err());
}

#[test]
fn test_are_columns_ok_non_ascii() {
    let mut columns: ColumnMap = ColumnMap::new();
    let table_name = String::from("table");
    let col_name_1 = String::from("colą_łan");
    let col_name_2 = String::from("col_2");
    let mut col_1 = ColMetadata::new(&col_name_1, LogicalColType::INT64);
    let mut col_2 = ColMetadata::new(&col_name_2, LogicalColType::INT64);
    col_1.push_col_file(format!("./db/{}/{}", table_name, col_name_1));
    col_2.push_col_file(format!("./db/{}/{}", table_name, col_name_2));
    columns.insert(col_name_1, col_1);
    columns.insert(col_name_2, col_2);
    assert!(are_columns_ok(&columns, &table_name).is_err());
}

#[test]
fn test_create_file_path() {
    let _db_dir = "./db";
}

#[test]
fn test_create_dir_path() {
    let _db_dir = "./db";
}

#[test]
fn first_form_paths_are_under_the_data_directory() {
    let id = uuid::Uuid::parse_str("550e8400-e29b-41d4-a716-446655440000").unwrap().as_u128();
    assert_eq!(create_dir_path(&id, "users"), "./db_data/550e8400-e29b-41d4-a716-446655440000_users");
    assert_eq!(
        create_file_path(&id, "users", "username", 3),
        "./db_data/550e8400-e29b-41d4-a716-446655440000_users/username_3"
    );
}
