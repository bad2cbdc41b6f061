pub mod bytes_be;
pub mod col_data;
pub mod col_header;
pub mod col_read;
pub mod int_read_laws;
pub mod encoders;
pub mod string_handlers;
pub mod text;
pub mod metadata;
pub mod metadata_structs;
pub mod name_map;
