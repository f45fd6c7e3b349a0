//! Directory listing: decoding of file metadata, ordering of entries by
//! name, and rendering of the short and long views.

pub mod entry;
pub mod error;
pub mod identity;
pub mod listing;
pub mod mode;
pub mod name;
pub mod order;
pub mod sort;
pub mod style;
pub mod text;

pub use entry::{collect, File};
pub use error::ListError;
pub use listing::{list, long_line, render, short_item, visible};
pub use mode::{mode_is_directory, Permissions};
pub use name::{hidden_name, names_in_order, valid_name};
pub use sort::sort_by_name;
pub use style::format_name;
pub use text::decimal_text;
