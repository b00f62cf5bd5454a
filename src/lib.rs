//! A caching decorator over a random-number generator: a block of bytes is
//! drawn from the wrapped generator once, at construction, and every request
//! is then served partly from the front of that block and partly from the
//! wrapped generator.
//!
//! The block is never refreshed. Two fills of the same length start with the
//! same cached bytes, so the decorator is not a source of fresh entropy for
//! the cached part of its output.

mod pull;
mod source;
mod cache;

pub use pull::{
    cache_pull, floor_sqrt, is_floor_sqrt, lemma_pull_len_bounds, pull_len, sqrt_down, CACHE_LEN,
};
pub use source::{be_value, is_native_word, le_value};
pub use cache::{lemma_cache_reuse, lemma_fill_determined, serves_from_cache, FillError, RngCache};
