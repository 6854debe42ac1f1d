pub mod parser;
pub mod types;
pub mod profiles;
