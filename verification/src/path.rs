//! A path paired with its shell-escaped form, computed once at the point
//! the path enters the system.

use vstd::prelude::*;
use crate::escape::{escape_quote, spec_escape_quote};

verus! {

/// An owned path together with the form safe to embed inside a
/// double-quoted shell token: every double quote is backslash-escaped.
/// The two travel together so that no caller escapes a path twice or
/// forgets to escape it once.
#[derive(Debug)]
pub struct Escaped {
    pub original: String,
    pub escaped: String,
}

impl Escaped {
    /// The escaped form is exactly the backslash-escape of the original.
    pub open spec fn wf(&self) -> bool {
        self.escaped@ == spec_escape_quote(self.original@, '"')
    }

    pub fn new(path: &str) -> (r: Escaped)
        ensures
            r.original@ == path@,
            r.escaped@ == spec_escape_quote(path@, '"'),
            r.wf(),
    {
        Escaped { original: path.to_owned(), escaped: escape_quote(path, '"') }
    }
}

} // verus!
