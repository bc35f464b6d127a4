//! Core of a TLS-terminating edge gateway: request parsing, static-file
//! caching, multipart decoding and the decisions of the connection handlers,
//! stated as contracts and proved.

pub mod text;
pub mod text_map;
pub mod number;
pub mod path;
pub mod conf;
pub mod headers;
pub mod multipart;
pub mod http;
pub mod request;
pub mod compress;
pub mod cache;
pub mod static_handler;
pub mod stream_handler;
pub mod http_stream_handler;
pub mod epoll;
pub mod listener;
