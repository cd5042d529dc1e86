pub mod aggregate;
pub mod model;
pub mod relational;
pub mod store;
