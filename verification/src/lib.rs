//! Extraction of test cases from a document made of headings and fenced blocks.
//!
//! A document is scanned top to bottom. Headings open nested sections, blocks
//! tagged `options` merge a partial configuration into the innermost open
//! section, and every other fenced block is an argument of the test case that
//! the next heading, or the end of the document, closes.
//!
//! - [`config`]: what a configuration value has to offer, and when a
//!   configuration type makes the extraction a function of the document.
//! - [`document`]: the blocks of a document; [`parse`]: from source text to
//!   blocks.
//! - [`section`]: the stack of open sections; [`case`]: the test cases.
//! - [`scan`]: the scan as the contracts tell it; [`extract`]: the scan as
//!   it runs.
//! - [`laws`]: what holds of every stack and of every scan.

pub mod case;
pub mod config;
pub mod document;
pub mod error;
pub mod extract;
pub mod laws;
pub mod parse;
pub mod scan;
pub mod section;

pub use case::TestCase;
pub use config::MergeSerialized;
pub use document::{Block, Code, Heading, Inline};
pub use error::ExtractError;
pub use extract::{extract, get_test_cases, push_test_case};
pub use section::SectionStack;
