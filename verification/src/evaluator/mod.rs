pub mod alike;
pub mod handshake;
pub mod otlp;
pub mod parser;
pub mod process;
pub mod protocol;
