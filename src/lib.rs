//! An append-only sequence that one writer grows while any number of readers
//! look at it. Elements live in blocks whose sizes double, so growth never
//! moves an element that is already stored.

pub mod index;
pub mod cell;
pub mod stele;
pub mod reader;
pub mod writer;
pub mod iter;

pub use stele::Stele;
pub use reader::ReadHandle;
pub use writer::WriteHandle;
pub use stele::{locate, starts_block};
pub use iter::{CopyIterator, RefIterator};
