pub mod codec;
pub mod parser;
pub mod writer;
