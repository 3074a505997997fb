//! Verified core of a terminal book-library manager: ISBN handling, the command
//! language, the text-editing state machines and the paged selection cursor.

pub mod isbn;
pub mod book_rows;
pub mod book_cache;
pub mod epub_meta;
pub mod text;
pub mod records;
pub mod regex_text;
pub mod search;
pub mod parser;
pub mod bang_command;
pub mod paged_cursor;
pub mod user_input;
pub mod key_input;
pub mod basic_input;
pub mod basic_keys;
pub mod edit;
pub mod sql_edit;
pub mod wide_path;
pub mod paged_view;
pub mod settings;
pub mod scrollable_text;
pub mod multi_select;
pub mod paginator;
pub mod page_window;
pub mod table_view;
pub mod layout;
