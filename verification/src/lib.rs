//! A minimal template-substitution engine: placeholders delimited by a
//! configurable opening and closing tag are replaced, left to right, by
//! string values looked up in a JSON data mapping.
use vstd::prelude::*;

pub mod expand;
pub mod json;
pub mod laws;
pub mod scan;

pub use expand::get_parsed_content;
pub use json::Data;
pub use json::JsonError;
pub use json::parse_json_data;

verus! {

/// Where the template and the data come from, and which tag pair delimits
/// a placeholder.
pub struct Config<'a> {
    pub filename: &'a str,
    pub json_filename: &'a str,
    pub opening_tag: &'a str,
    pub closing_tag: &'a str,
}

} // verus!
