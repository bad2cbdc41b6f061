use ii_proj_rest_server::db::storage::metadata::DbMetadata;
use ii_proj_rest_server::db::storage::name_map::NameMap;
use ii_proj_rest_server::db::storage::string_handlers::check_col_name_correctness;
use ii_proj_rest_server::file_format_prep::column_structs::check_col_name_correctness as ffp_check_col_name;
use ii_proj_rest_server::file_format_prep::metadata_structs::DbMetadata as FfpDbMetadata;
use ii_proj_rest_server::rest_api::routing::{ApiRequestParser, HttpMethod};

#[test]
fn column_names_start_with_a_letter_then_letters_digits_and_underscores() {
    for ok in ["a", "Z", "ok_col", "col_9", "A_b_C_1"] {
        assert!(check_col_name_correctness(&String::from(ok)).is_ok(), "{ok}");
        assert!(ffp_check_col_name(&String::from(ok)).is_ok(), "{ok}");
    }
    for bad in ["", "1abc", "_a", "a-b", "a b", "a.b", "a\n"] {
        assert!(check_col_name_correctness(&String::from(bad)).is_err(), "{bad:?}");
        assert!(ffp_check_col_name(&String::from(bad)).is_err(), "{bad:?}");
    }
}

#[test]
fn database_paths_allow_a_dot_only_after_a_slash() {
    for ok in ["./db/", "./db_metadata", "db", "/x", "a/./b", "a/.", ".a", "./", "/"] {
        assert!(DbMetadata::new_empty(ok, "./db/").is_ok(), "{ok}");
    }
    for bad in ["", ".", "..", "/./b", "a/..", "a.b", "./a.b", "1a", "a-b", ".1"] {
        assert!(DbMetadata::new_empty(bad, "./db/").is_err(), "{bad}");
    }
}

#[test]
fn first_format_paths_are_letters_digits_dots_slashes_and_underscores() {
    let names = vec![String::from("c")];
    for ok in ["./db_data/c_0", "a", ".", "/a1_.b"] {
        let mut paths = NameMap::new();
        paths.insert(String::from("c"), vec![String::from(ok)]);
        assert!(FfpDbMetadata::new_all_data(1, vec![1], vec![0], names.clone(), paths).is_ok(), "{ok}");
    }
    for bad in ["1a", "_a", "a-b", "a b"] {
        let mut paths = NameMap::new();
        paths.insert(String::from("c"), vec![String::from(bad)]);
        assert!(FfpDbMetadata::new_all_data(1, vec![1], vec![0], names.clone(), paths).is_err(), "{bad}");
    }
}

#[test]
fn route_paths_with_a_parameter_take_one_segment() {
    assert_eq!(ApiRequestParser::parse_operation_id(HttpMethod::Get, "/table/abc"), Some("GetTableById"));
    assert_eq!(ApiRequestParser::parse_operation_id(HttpMethod::Get, "/table/"), Some("GetTableById"));
    assert_eq!(ApiRequestParser::parse_operation_id(HttpMethod::Get, "/table/a/b"), None);
    assert_eq!(ApiRequestParser::parse_operation_id(HttpMethod::Get, "/table/a?b"), None);
    assert_eq!(ApiRequestParser::parse_operation_id(HttpMethod::Get, "/tables/"), None);
    assert_eq!(ApiRequestParser::unrouted_status("/result/x#y"), 404);
    assert_eq!(ApiRequestParser::unrouted_status("/result/x"), 405);
}
