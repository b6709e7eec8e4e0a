pub mod endpoint;
pub mod interest;
pub mod laws;
pub mod model;
pub mod pump;
pub mod registry;
pub mod shutdown;
