//! Static files embedded into a program: a generator that turns files and a
//! compression policy into a table declaration, and an accessor that answers
//! lookups against such a table.

pub mod codec;
pub mod compression;
pub mod declaration;
pub mod files;
pub mod flat;
pub mod generator;
pub mod key;
pub mod laws;
pub mod lossless;
pub mod render;
pub mod table;

pub use codec::Error;
pub use compression::Compression;
pub use flat::build;
pub use files::{Content, FileNames, Files, Reader, Stream};
pub use generator::{start, IncludeDir, WalkEntry};
pub use key::as_key;
pub use table::FileEntry;
