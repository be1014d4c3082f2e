//! Summaries of Python package vulnerability lookups, and the request
//! checks of the tools that serve them.

pub mod text;
pub mod summary;
pub mod requests;
pub mod tools;
