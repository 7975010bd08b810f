//! CPU scheduling statistics of a process or thread, as the kernel publishes
//! them in `/proc/[pid]/schedstat`.
//!
//! The crate holds everything about that record except the system calls:
//! where the resource of a task lives ([`path`]), how it is read into a
//! buffer of fixed size ([`reader`]), how its one line of text becomes a
//! [`Schedstat`] ([`parser`]), and how the failures of reading and of parsing
//! come together in one result ([`query`]). [`laws`] states what holds of the
//! parser on every text.

pub mod decimal;
pub mod error;
pub mod laws;
pub mod parser;
pub mod path;
pub mod query;
pub mod reader;
pub mod record;
pub mod whitespace;

pub use decimal::parse_usize;
pub use error::{Error, ParseError};
pub use parser::parse_schedstat;
pub use path::{schedstat_path, schedstat_self_path, schedstat_task_path};
pub use query::schedstat_from_read;
pub use reader::{ReadState, ReadStep, BUFFER_LEN, CAPACITY};
pub use record::Schedstat;
