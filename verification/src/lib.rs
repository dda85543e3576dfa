//! A minimal line-filtering library.
//!
//! Given a non-empty query string and a sequence of text lines, the scanner
//! reports every line containing the query as a substring, optionally after
//! lowercasing both sides, and renders each hit as `[LINHA <n>]: <line>`
//! with a 1-based line number. All of the filtering, numbering and rendering
//! logic is verified; reading the file and writing to a sink are left to the
//! surrounding application.

mod config;
mod matching;
mod render;
mod scan;

pub use config::Config;
pub use config::GrepError;
pub use matching::contains_str;
pub use matching::contains_substring;
pub use matching::line_matches;
pub use matching::line_matches_exec;
pub use matching::lower_of;
pub use matching::match_at;
pub use render::dec_rep;
pub use render::digit_char;
pub use render::format_record;
pub use render::record_str;
pub use render::u64_to_dec;
pub use scan::grep;
pub use scan::lemma_matching_indices_in_range;
pub use scan::lemma_scan_all_match;
pub use scan::lemma_scan_deterministic;
pub use scan::lemma_scan_order;
pub use scan::lemma_scan_spec_concat;
pub use scan::matching_indices;
pub use scan::scan_records;
pub use scan::scan_spec;
