//! Error types for the generation and lifecycle subsystem.

use vstd::prelude::*;
use vstd::string::StringExecFns;

verus! {

/// Everything that can go wrong while a wrap operation is prepared.
/// I/O and subprocess failures happen outside this crate and are reported
/// there through [`IoError`] and the caller's own means.
#[derive(Clone, Copy, Debug, PartialEq, Eq, Structural)]
pub enum WrapError {
    /// No filename component could be extracted from the given path.
    InvalidPath,
    /// An environment variable definition has no `=` separator.
    MissingSeparator,
    /// An environment variable name does not fit the strict name grammar.
    InvalidVariableName,
    /// The hidden path already exists: the binary is already wrapped.
    AlreadyWrapped,
    /// The wrapper script cannot be embedded into the installer script.
    Render,
}

/// A failed filesystem or subprocess operation, tagged with the path
/// involved. The operations themselves run outside this crate; this type
/// only carries their report.
pub struct IoError {
    path: String,
    err: IoErrorMessage,
}

impl IoError {
    /// The path the failed operation was about.
    pub closed spec fn spec_path(&self) -> Seq<char> {
        self.path@
    }

    /// The description of the failure.
    pub closed spec fn spec_err(&self) -> Seq<char> {
        self.err@
    }

    pub fn new(path: &str, err: IoErrorMessage) -> (r: IoError)
        ensures
            r.spec_path() == path@,
            r.spec_err() == err@,
    {
        IoError { path: path.to_owned(), err }
    }

    /// Renders the error as `path: cause`.
    pub fn message(&self) -> (r: String)
        ensures
            r@ == self.spec_path() + ": "@ + self.spec_err(),
    {
        let mut r = self.path.clone();
        r.append(": ");
        r.append(self.err.0.as_str());
        proof {
            assert(r@ =~= self.spec_path() + ": "@ + self.spec_err());
        }
        r
    }
}

/// The plain-text cause carried inside an [`IoError`].
pub struct IoErrorMessage(String);

impl View for IoErrorMessage {
    type V = Seq<char>;

    closed spec fn view(&self) -> Seq<char> {
        self.0@
    }
}

impl From<String> for IoErrorMessage {
    fn from(value: String) -> (r: IoErrorMessage) {
        IoErrorMessage(value)
    }
}

impl vstd::std_specs::convert::FromSpecImpl<String> for IoErrorMessage {
    open spec fn obeys_from_spec() -> bool {
        true
    }

    closed spec fn from_spec(value: String) -> IoErrorMessage {
        IoErrorMessage(value)
    }
}

impl<'a> From<&'a str> for IoErrorMessage {
    fn from(value: &'a str) -> (r: IoErrorMessage) {
        IoErrorMessage(value.to_owned())
    }
}

// A `String` with a prescribed view cannot be named in specification code,
// so this conversion promises nothing; callers that need the content spelled
// out convert through `From<String>`.
impl<'a> vstd::std_specs::convert::FromSpecImpl<&'a str> for IoErrorMessage {
    open spec fn obeys_from_spec() -> bool {
        false
    }

    closed spec fn from_spec(value: &'a str) -> IoErrorMessage {
        IoErrorMessage { 0: arbitrary() }
    }
}

} // verus!
