pub mod parser;
pub mod rules;
pub mod smtp;
pub mod text;
