pub mod col_data;
pub mod column_structs;
pub mod constants;
pub mod db_manager;
pub mod errors;
pub mod metadata_laws;
pub mod metadata_structs;
pub mod storage_builder;
pub mod storage_structs;
pub mod string_read;
