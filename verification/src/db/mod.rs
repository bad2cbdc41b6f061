pub mod constants;
pub mod db_engine;
pub mod errors;
pub mod manager;
pub mod storage;
