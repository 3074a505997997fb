# bookstore

The verified core of a terminal book-library manager. `src/` is a Verus library: every
function there carries a contract that Verus proves. `app/` holds the ordinary Rust around
it: reading and writing the settings file, collecting path completions from the file
system, and the float-valued series index.

Modules of the library:

- `isbn`: ISBN-10/13 parsing, checking, printing and the compact 64-bit form.
- `book_rows`: the books built from the rows of the SQLite store, their columns, setting a
  column, comparing books by a column, merging books with the same title and authors, and
  finding the books that match searches.
- `book_cache`: the books held in memory keyed by id, with their column names; editing and
  merging the books held; and loading books on demand (which ids to read, the queries
  that read them, and adding what they return).
- `text`: small verified string helpers (decimal parsing, ASCII case).
- `records`: column identifiers, edits, book types.
- `parser`: the `:`-command language of the terminal interface.
- `bang_command`: the `!`-command language of the compact front end.
- `search`, `paginator`, `page_window`, `sql_edit`, `wide_path`: searching, the SQL the
  SQLite store runs, and the window of loaded books.
- `paged_cursor`, `paged_view`, `multi_select`, `scrollable_text`, `layout`: cursors,
  scrolling and the layout of the book list.
- `user_input`, `basic_input`, `key_input`, `basic_keys`: text entry, command lines with
  path completion, and what each key does.
- `settings`, `table_view`: colours, navigation and the columns shown.
- `epub_meta`: reading an EPUB's metadata from its package document.
- `regex_text`: compiled regexes kept with the pattern they came from, so that what a match
  gives is stated of the pattern and the text.

Not here: the SQLite connection and its queries, reading book files (EPUB/MOBI archives),
the terminal, and the asynchronous application loop that dispatches commands to the store.
Whether a series index text is a number, and how two index texts compare, is asked of the
caller, as reading them is a float parse.
`app/` does not run the store either: it covers settings, completion and the series index
only. The library's `Book` keeps a series index as the text the store holds.
