//! A minimal document fetcher core: URL resolution, HTTP response parsing,
//! and a navigation history with a response cache, driven by a session
//! that plans network work so a caller only performs the raw I/O.

pub mod browser;
pub mod http;
pub mod session;
pub mod strmap;
pub mod text;
pub mod url;
