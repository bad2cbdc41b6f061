pub mod regex_api;
pub mod std_text;
pub mod uuid_api;
pub mod zstd_api;
