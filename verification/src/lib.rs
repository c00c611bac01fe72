//! The core of a small static-file HTTP/1.0 and HTTP/1.1 server.
//!
//! The library performs no input or output.  A caller feeds it what arrived
//! from the client and from the file system, and carries out what it asks
//! for; everything in between is verified.

pub mod ascii;
pub mod bytes;
pub mod con;
pub mod date;
pub mod error;
pub mod file;
pub mod filetype;
pub mod path;
pub mod percent;
pub mod request;
pub mod response;
pub mod server;
pub mod timeout;
