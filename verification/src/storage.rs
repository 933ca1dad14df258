//! The code shown when the editor opens.

use vstd::prelude::*;

verus! {

/// The program shown to a first-time visitor.
pub const DEFAULT_CODE: &'static str =
    "# Welcome to Python IDE!\n# Write your Python code here and click Run\n\nprint(\"Hello, World!\")\n\nfor i in range(5):\n    print(f\"Count: {i}\")\n";

/// What `get_default_code` returns for a given content of the persisted-code store.
pub open spec fn default_code_spec(stored: Option<Seq<char>>) -> Seq<char> {
    match stored {
        Some(code) => code,
        None => DEFAULT_CODE@,
    }
}

/// The code to open the editor with: the persisted code if the store holds
/// any, the welcome program otherwise.
pub fn get_default_code(stored: Option<String>) -> (code: String)
    ensures
        code@ == default_code_spec(
            match stored {
                Some(s) => Some(s@),
                None => None,
            },
        ),
{
    match stored {
        Some(code) => code,
        None => DEFAULT_CODE.to_owned(),
    }
}

} // verus!
