//! The core of a small HTTP/1.1 server: a parser for the request line of a
//! raw request buffer, the serializer of a response, and the interface
//! between the two that an application implements.
//!
//! Text is modelled by its UTF-8 bytes throughout: every contract speaks of
//! `spec_bytes()` of a string slice, and every scan for a delimiter is a scan
//! over bytes.
pub mod http;
pub mod server;
pub mod text;
pub mod website_handler;
