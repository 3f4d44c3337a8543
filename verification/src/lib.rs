//! Parser for Debian debconf template stanzas: a line-oriented `Key: Value`
//! format with a closed set of field names (`Template`, `Type`, `Default`)
//! and a closed set of type literals for the `Type` field.

use vstd::prelude::*;
use vstd::string::StringExecFns;

pub mod text;
pub mod tokens;
pub mod stanza;

verus! {

/// A sample debconf template stanza, as it would be read from a templates
/// file: a `Template`, `Type` and `Default` line, then a `Description`
/// line that the stanza grammar leaves for the caller.
pub fn get_test_data() -> (r: String)
    ensures
        r@
            == "Template: man-db/auto-update\nType: boolean\nDefault: true\nDescription: for internal use; can be preseeded\n"@,
{
    String::from_str(
        "Template: man-db/auto-update\nType: boolean\nDefault: true\nDescription: for internal use; can be preseeded\n",
    )
}

} // verus!
