//! The records that test discovery produces for one file.

use vstd::prelude::*;
use vstd::string::StringExecFns;
use crate::config::Config;
use crate::environment::Environment;

verus! {

/// The signature of a discovered function.
#[derive(Debug)]
pub struct Function {
    /// Spelling of the return type.
    pub returns: String,
    /// The full function name, prefix included.
    pub name: String,
    /// The name after the test prefix; empty for the entry point.
    pub name_slice: String,
    /// Spellings of the argument types.
    pub args: Vec<String>,
}

/// Byte ranges of the parts of a discovered function.
#[derive(Debug)]
pub struct Range {
    /// From the function's start to just before its body.
    pub template: (usize, usize),
    /// The body, brace to brace.
    pub body: (usize, usize),
}

/// Everything extracted from one qualifying function.
#[derive(Debug)]
pub struct ParsedTest {
    /// Parsed from the function's documentation comment.
    pub config: Config,
    /// The function's signature.
    pub function: Function,
    /// Where its template and body sit in the file.
    pub range: Range,
}

/// The result of processing one file: its tests, its entry point when one
/// exists, and the synthesized textual views.
#[derive(Debug)]
pub struct ParsedFile {
    /// Path of the file, as handed in by the caller.
    pub path: String,
    /// The path's file stem.
    pub stem: String,
    /// Every discovered test, in file order.
    pub test: Vec<ParsedTest>,
    /// The three textual views of the file.
    pub environment: Environment,
    /// The entry point, when the file has one and holds at least one test.
    pub main: Option<ParsedTest>,
}

impl ParsedTest {
    /// The file stem under which this test would be hosted: the file's stem,
    /// an underscore, and the test's name part.
    pub fn get_test_file_stem(&self, parsed_file: &ParsedFile) -> (r: String)
        ensures
            r@ == parsed_file.stem@ + "_"@ + self.function.name_slice@,
    {
        let mut stem = parsed_file.stem.clone();
        stem.append("_");
        stem.append(self.function.name_slice.as_str());
        stem
    }
}

} // verus!
