pub mod form;
pub mod models;
pub mod responses;
pub mod routing;
