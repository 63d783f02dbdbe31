//! Names and markers that the whole crate agrees on.

use vstd::prelude::*;

verus! {

/// Second part of a configuration file's name, between stem and extension.
pub const CONFIG_FOLLOWUP_NAME: &'static str = "cesty";

/// Base name of a freshly initialized configuration file.
pub const DEFAULT_CONFIG_FILENAME: &'static str = "config";

/// The private working directory.
pub const DEFAULT_PRIVATE_DIRECTORY: &'static str = ".cesty";

/// The prefix that marks a function as a test.
pub const DEFAULT_FUNCTION_PREFIX: &'static str = "cesty_";

/// Name of the compiler used when none is configured.
pub const DEFAULT_COMPILER_NAME: &'static str = "gcc";

/// The file extensions worth parsing for tests.
pub fn searched_file_extensions() -> (r: Vec<&'static str>)
    ensures
        r@.len() == 1,
        r@[0]@ == "c"@,
{
    let mut v: Vec<&'static str> = Vec::new();
    v.push("c");
    v
}

} // verus!
