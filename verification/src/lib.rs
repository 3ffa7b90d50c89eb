pub mod text;
pub mod json;
pub mod types;
pub mod metrics;
pub mod structured;
pub mod parser;
pub mod agent;
pub mod tools;
