//! Discovery of annotated C test functions and synthesis of the textual
//! environments that host them.
//!
//! The crate models the text of one C source file as a byte sequence and
//! verifies the logic that
//! recovers configuration text from documentation comments while keeping a
//! map back to the original file position,
//! walks the functions of a translation unit, collecting one test record per
//! qualifying function and rejecting a second entry point,
//! applies the recorded byte-range edits to produce the full, entry-point-free
//! and body-free views of the file, and
//! renders every failure as a source-located diagnostic.
//!
//! Opening the translation unit, parsing the embedded configuration document
//! and all input and output stay outside the crate; callers hand in plain
//! values and get plain values back.

pub mod arg_conf;
pub mod bytes;
pub mod comments;
pub mod compilable;
pub mod config;
pub mod defaults;
pub mod environment;
pub mod error;
pub mod extract;
pub mod globals;
pub mod text;
pub mod walker;
