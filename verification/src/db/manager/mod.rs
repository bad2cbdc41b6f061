pub mod id_map;
pub mod messages;
pub mod query_store;
pub mod workers_pool;
pub mod db_manager;
pub mod query_worker;
