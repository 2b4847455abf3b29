//! A minimal paste-storage core: a hand-rolled request parser for an
//! HTTP-like wire protocol, two interchangeable addressing strategies
//! (random indirection and content hashing) over an identifier index and
//! a blob table, and a single-cycle connection handler that ties them
//! together. The listener loop and all socket work live outside this crate.

pub mod util;
pub mod parse;
pub mod ident;
pub mod store;
pub mod decode;
pub mod handler;
