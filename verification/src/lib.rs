pub mod outputs;
pub mod parser;
pub mod text;
