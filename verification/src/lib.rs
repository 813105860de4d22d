pub mod chars;
pub mod greet;
pub mod ipv4;
pub mod ipv6;
pub mod manifest;
pub mod reply;
