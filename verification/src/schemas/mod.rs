pub mod column;
pub mod error;
pub mod query;
pub mod system_information;
pub mod table;
