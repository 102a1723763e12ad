//! Requests, responses and what they are made of.
pub mod method;
pub mod query_string;
pub mod request;
pub mod response;
pub mod status_code;

pub use method::Method;
pub use method::MethodError;
pub use query_string::QueryString;
pub use query_string::Value;
pub use request::ParseError;
pub use request::Request;
pub use response::Response;
pub use status_code::StatusCode;
