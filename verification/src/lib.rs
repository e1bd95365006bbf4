pub mod config;
pub mod history;
pub mod laws;
pub mod model;
pub mod sampler;
pub mod store;
pub mod text;
