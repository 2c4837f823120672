//! A micro web framework: requests, responses and the parsing of what clients send.

pub mod text;
pub mod bytes;
pub mod decimal;
pub mod io;
pub mod url_codec;
pub mod request;
pub use request::{HeadersIter, Request, RequestBody};
pub mod response;
pub use response::{Response, ResponseBody};
pub mod content_encoding;
pub mod input;
pub mod socket_handler;
pub mod server;
pub mod proxy;
pub mod cgi;
pub mod websocket;
pub mod session;
pub mod output;
pub mod route;
