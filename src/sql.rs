pub mod laws;
pub mod methods;
pub mod models;
pub mod schema;

pub use methods::DB;
