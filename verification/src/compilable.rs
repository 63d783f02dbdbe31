//! Generation of a compilable test source: the file's entry-point-free view
//! with a fresh `main` that calls one test function.

use vstd::prelude::*;
use vstd::string::StringSliceAdditionalSpecFns;
use vstd::utf8::encode_utf8;
use crate::extract::ParsedFile;
use crate::extract::ParsedTest;

verus! {

/// One test made compilable: its configuration and where its source was
/// written.
#[derive(Debug)]
pub struct CompilableTest {
    /// Parsed from the function's documentation comment.
    pub config: crate::config::Config,
    /// File path of the compilable test source.
    pub path: String,
}

/// The text of a compilable test: the entry-point-free view of the file,
/// then a `main` that runs the one test function and turns its truth value
/// into an exit code.
pub open spec fn spec_compilable(env: Seq<u8>, func: Seq<char>) -> Seq<u8> {
    env + "\n\nint main() {\n\n    return ".spec_bytes() + encode_utf8(func)
        + "() == true ? 0 : 1;\n\n}\n".spec_bytes()
}

/// Write the compilable source for one test of a parsed file.
pub fn create_compilable_test(parsed_test: &ParsedTest, parsed_file: &ParsedFile) -> (r: Vec<u8>)
    ensures
        r@ == spec_compilable(parsed_file.environment.mainless@, parsed_test.function.name@),
{
    let mut out: Vec<u8> = Vec::new();
    crate::error::push_bytes(&mut out, &parsed_file.environment.mainless);
    crate::error::push_str_bytes(&mut out, "\n\nint main() {\n\n    return ");
    crate::error::push_str_bytes(&mut out, parsed_test.function.name.as_str());
    crate::error::push_str_bytes(&mut out, "() == true ? 0 : 1;\n\n}\n");
    proof {
        assert(out@ =~= spec_compilable(
            parsed_file.environment.mainless@,
            parsed_test.function.name@,
        ));
    }
    out
}

} // verus!
