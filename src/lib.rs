//! Server and client logic for LED-matrix boards driven over a fixed-width
//! ten-byte frame protocol.
pub mod frame;
pub mod text;
pub mod colour;
pub mod variables;
pub mod clock;
pub mod json;
pub mod resolve;
pub mod template;
pub mod boards;
pub mod device;
pub mod images;
pub mod render;
pub mod session;
pub mod client;
pub mod config;
