//! Core logic of a browser Python IDE: the execution-session protocol between
//! the page and its background worker, the page-side run state, and the codec
//! that packs source text into a URL fragment.

pub mod base64url;
pub mod deflate;
pub mod python_ide;
pub mod python_runner;
pub mod storage;
pub mod text;
pub mod url_codec;
