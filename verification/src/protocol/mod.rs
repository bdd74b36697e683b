pub mod codec;
pub mod connection;
pub mod fuse;
pub mod line;
pub mod machine;
pub mod mail;
pub mod parse;
pub mod peer;
pub mod smtp;
pub mod stateful;
pub mod through;
pub mod tls;
pub mod transport;
pub mod writer;
