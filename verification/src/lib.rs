//! Request ingestion for a small HTTP/1.1 server: a directive parser for the
//! server configuration and a lazy, resumable reader for request heads.

pub mod config;
pub mod cursor;
pub mod directive;
pub mod grammar;
pub mod laws;
pub mod reader;
pub mod state;
pub mod store;
pub mod text;

pub use cursor::{AsyncReadStream, Fetch, CAPACITY};
pub use directive::{parse, parse_directive, Block, Directive, ParameterType, SyntaxError};
pub use grammar::{HttpMethod, HttpVersion, ParseError, Poll};
pub use reader::HttpLazyStreamReader;
