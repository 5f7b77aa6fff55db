//! Link-extraction and recursive-expansion engine for a web content-discovery
//! scanner: it discovers candidate paths in response bodies and robots.txt
//! files, expands each into its enclosing directory prefixes, resolves and
//! deduplicates them against a shared scan ledger, and decides which probed
//! candidates are fed back into the scanning pipeline as recursive targets.

pub mod colors;
pub mod extractor;
pub mod ledger;
pub mod paths;
pub mod patterns;
pub mod urls;
pub mod utils;
