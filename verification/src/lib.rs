//! Turns a serialized web novel into the ordered parts of a packaged book:
//! site-specific extraction of the index and chapter pages, a bounded
//! scheduler for the chapter downloads, and a collector that restores the
//! narrative order of results that arrive out of order.

pub mod text;
pub mod markup;
pub mod extractor;
pub mod collector;
pub mod scheduler;
pub mod pipeline;
