//! Commit-analysis helpers: month arguments, commit categories, and the
//! decisions that turn a model's analysis of a commit into a report entry.
pub mod text;
pub mod decimal;
pub mod month;
pub mod category;
pub mod commits;
pub mod analysis;
pub mod report;
pub mod reply;
pub mod render;
pub mod groups;
pub mod item;
pub mod table;

pub use month::{parse_yyyy_mm, month_index};
pub use category::{classify_to_category, parse_category_from_analysis};
