//! Text metrics: byte, character, word and line counts of one or more
//! sources, and the tab-separated table that reports them.

pub mod report;
pub mod table;
pub mod text;

pub use report::{get_all_count, get_byte_count, get_for_file, Cli};
pub use text::{get_char_count, get_line_count, get_word_count};
pub use table::{render_table, report_table};
