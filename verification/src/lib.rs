//! Rabin–Karp substring search over adaptively sized chunks of a byte buffer.
//!
//! A search hashes the needle once, then slides a window of the needle's
//! length over the haystack and reports every offset at which the window's
//! hash equals the needle's. Within a chunk of consecutive offsets the hash
//! is rolled forward in constant time; each chunk starts afresh, so chunks
//! can be scanned independently, and how the offsets are cut into chunks
//! changes how long a search takes, never what it finds.

pub mod clock;
pub mod collector;
pub mod error;
pub mod hasher;
pub mod modular;
pub mod scanner;
pub mod scheduler;
pub mod search;

pub use crate::collector::MatchCollector;
pub use crate::error::ConfigError;
pub use crate::hasher::Hasher;
pub use crate::modular::ModularValue;
pub use crate::scanner::{Pattern, ScanState, Scanner};
pub use crate::scheduler::{partition, schedule, Chunk, ChunkPolicy, Scheduler};
pub use crate::search::{count_matches, find_matches, string_match, SearchConfig};
