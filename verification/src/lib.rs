//! Parsing and querying of YaST2-style installer logs.
//!
//! The library turns raw log text into a sequence of typed [`log::Entry`]
//! records and filters them with conjunctive, optional predicates built
//! through [`log::Query`].

pub mod datetime;
pub mod log;
pub mod parser;
pub mod text;

pub use datetime::DateTime;
pub use log::{Entry, Level, Location, Log, Pid, Query};
pub use parser::{parse_string, ParseError};
