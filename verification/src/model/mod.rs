pub mod act;
pub mod command;
pub mod controll;
pub mod io;
pub mod machine;
pub mod mail;
pub mod session;
pub mod response;
pub mod server;
pub mod state;
pub mod text;
pub mod tls;
