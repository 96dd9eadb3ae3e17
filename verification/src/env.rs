//! Environment variables: the `NAME=value` form they are written in, the
//! strict name grammar, and the shell `export` line they are rendered to.

use vstd::prelude::*;
use vstd::string::{StrSliceExecFns, StringExecFns, StringSliceAdditionalSpecFns};
use vstd::utf8::encode_utf8;
use crate::error::WrapError;
use crate::escape::{escape_ascii, spec_escape_bytes};
use crate::text::{chars_to_string, str_to_chars, subrange_chars};

verus! {

/// Whether `char::is_alphabetic` holds of a non-ASCII character `c`.
pub uninterp spec fn is_alphabetic_high_char(c: char) -> bool;

/// Whether `char::is_alphanumeric` holds of a non-ASCII character `c`.
pub uninterp spec fn is_alphanumeric_high_char(c: char) -> bool;

/// What `char::is_alphabetic` returns: among the ASCII characters, true
/// exactly for the letters `a`–`z` and `A`–`Z`; above ASCII, whatever the
/// Unicode `Alphabetic` property says.
pub open spec fn spec_is_alphabetic(c: char) -> bool {
    if (c as u32) < 0x80 {
        'a' <= c && c <= 'z' || 'A' <= c && c <= 'Z'
    } else {
        is_alphabetic_high_char(c)
    }
}

/// What `char::is_alphanumeric` returns: among the ASCII characters, true
/// exactly for the letters and the digits `0`–`9`; above ASCII, whatever
/// the Unicode `Alphabetic` property and `Number` categories say.
pub open spec fn spec_is_alphanumeric(c: char) -> bool {
    if (c as u32) < 0x80 {
        'a' <= c && c <= 'z' || 'A' <= c && c <= 'Z' || '0' <= c && c <= '9'
    } else {
        is_alphanumeric_high_char(c)
    }
}

/// Relies on `char::is_alphabetic`: true exactly for characters with the
/// Unicode `Alphabetic` property; among the ASCII characters these are the
/// letters `a`–`z` and `A`–`Z` and nothing else.
#[verifier::external_body]
fn char_is_alphabetic(c: char) -> (r: bool)
    ensures
        r == spec_is_alphabetic(c),
        (c as u32) >= 0x80 ==> r == is_alphabetic_high_char(c),
{
    c.is_alphabetic()
}

/// Relies on `char::is_alphanumeric`: true exactly for characters with the
/// Unicode `Alphabetic` property or in a `Number` category; among the ASCII
/// characters these are the letters `a`–`z` and `A`–`Z` and the digits
/// `0`–`9`, and nothing else.
#[verifier::external_body]
fn char_is_alphanumeric(c: char) -> (r: bool)
    ensures
        r == spec_is_alphanumeric(c),
        (c as u32) >= 0x80 ==> r == is_alphanumeric_high_char(c),
{
    c.is_alphanumeric()
}

/// Whether `c` may stand in a variable name, at the first position
/// (`first`) or later: an underscore always may; otherwise the character
/// must be alphanumeric, and at the first position alphabetic as well.
pub open spec fn valid_name_char(c: char, first: bool) -> bool {
    c == '_' || (spec_is_alphanumeric(c) && (!first || spec_is_alphabetic(c)))
}

/// The strict grammar for environment variable names: non-empty, first
/// character alphabetic or underscore, every character alphanumeric or
/// underscore.
pub open spec fn spec_valid_name(s: Seq<char>) -> bool {
    s.len() > 0 && forall|i: int| 0 <= i < s.len() ==> valid_name_char(#[trigger] s[i], i == 0)
}

/// The index of the first `=` in `s`, or `s.len()` where there is none.
pub open spec fn spec_first_eq(s: Seq<char>) -> int
    decreases s.len(),
{
    if s.len() == 0 {
        0
    } else if s[0] == '=' {
        0
    } else {
        1 + spec_first_eq(s.drop_first())
    }
}

/// [`spec_first_eq`] is pinned down by its characterisation: if nothing
/// before `i` is an `=` and `i` is the length or an `=`, then `i` is it.
proof fn lemma_first_eq_is(s: Seq<char>, i: int)
    requires
        0 <= i <= s.len(),
        i < s.len() ==> s[i] == '=',
        forall|j: int| 0 <= j < i ==> s[j] != '=',
    ensures
        spec_first_eq(s) == i,
    decreases s.len(),
{
    if s.len() == 0 {
    } else if s[0] == '=' {
        assert(i == 0);
    } else {
        assert(i >= 1);
        assert(forall|j: int| 0 <= j < i - 1 ==> s.drop_first()[j] == s[j + 1]);
        lemma_first_eq_is(s.drop_first(), i - 1);
    }
}

/// The shell line exporting `name` with `value`: the value stands inside
/// double quotes, its bytes escaped ASCII-safely.
pub open spec fn spec_bash_line(name: Seq<char>, value: Seq<char>) -> Seq<char> {
    "export "@ + name + "=\""@ + spec_escape_bytes(encode_utf8(value)) + "\"\n"@
}

/// Reads an `export` line back: the keyword, the name up to the first `=`,
/// then a double-quoted ASCII-escaped value, then the end of the line.
/// The mathematical inverse of [`spec_bash_line`].
pub open spec fn spec_parse_bash_line(line: Seq<char>) -> Option<(Seq<char>, Seq<char>)> {
    if line.len() < 7 || line.take(7) != "export "@ {
        None
    } else {
        let body = line.skip(7);
        let i = spec_first_eq(body);
        if i == body.len() || i + 1 >= body.len() || body[i + 1] != '"' {
            None
        } else {
            match crate::escape::spec_unescape(body.skip(i + 2)) {
                Some((bs, rest)) => if rest == seq!['\n'] && vstd::utf8::valid_utf8(bs) {
                    Some((body.take(i), vstd::utf8::decode_utf8(bs)))
                } else {
                    None
                },
                None => None,
            }
        }
    }
}

/// Law: rendering a variable as an `export` line and parsing the line back
/// recovers exactly the name and the value, for every value and every name
/// that fits the strict grammar.
pub proof fn lemma_bash_line_round_trip(name: Seq<char>, value: Seq<char>)
    requires
        spec_valid_name(name),
    ensures
        spec_parse_bash_line(spec_bash_line(name, value)) == Some((name, value)),
{
    reveal_strlit("export ");
    reveal_strlit("=\"");
    reveal_strlit("\"\n");
    let line = spec_bash_line(name, value);
    let esc = spec_escape_bytes(encode_utf8(value));
    assert(line.len() >= 7);
    assert(line.take(7) =~= "export "@);
    let body = line.skip(7);
    assert(body =~= name + seq!['=', '"'] + esc + seq!['"', '\n']);
    let n = name.len() as int;
    assert(forall|j: int| 0 <= j < n ==> valid_name_char(#[trigger] name[j], j == 0));
    assert(forall|j: int| 0 <= j < n ==> body[j] == name[j] && body[j] != '=');
    assert(body[n] == '=');
    lemma_first_eq_is(body, n);
    assert(body[n + 1] == '"');
    assert(body.take(n) =~= name);
    assert(body.skip(n + 2) =~= esc + seq!['"'] + seq!['\n']);
    crate::escape::lemma_unescape_escape(encode_utf8(value), seq!['\n']);
    vstd::utf8::encode_utf8_valid_utf8(value);
    vstd::utf8::encode_utf8_decode_utf8(value);
}

/// An environment variable: a name and a value.
#[derive(Debug)]
pub struct Variable {
    pub name: String,
    pub value: String,
}

impl Variable {
    pub fn new(name: &str, value: &str) -> (r: Variable)
        ensures
            r.name@ == name@,
            r.value@ == value@,
    {
        Variable { name: name.to_owned(), value: value.to_owned() }
    }

    /// Splits a `NAME=value` definition at its first `=` and checks the
    /// name against the strict grammar.
    pub fn parse(value: &str) -> (r: Result<Variable, WrapError>)
        ensures
            ({
                let s = value@;
                let i = spec_first_eq(s);
                if i == s.len() {
                    r == Err::<Variable, WrapError>(WrapError::MissingSeparator)
                } else if !spec_valid_name(s.take(i)) {
                    r == Err::<Variable, WrapError>(WrapError::InvalidVariableName)
                } else {
                    r matches Ok(v) && v.name@ == s.take(i) && v.value@ == s.skip(i + 1)
                }
            }),
    {
        let chars = str_to_chars(value);
        let n = chars.len();
        let mut i: usize = 0;
        while i < n && chars[i] != '='
            invariant
                n == chars@.len(),
                chars@ == value@,
                i <= n,
                forall|j: int| 0 <= j < i ==> value@[j] != '=',
            decreases n - i,
        {
            i = i + 1;
        }
        proof {
            lemma_first_eq_is(value@, i as int);
        }
        if i == n {
            return Err(WrapError::MissingSeparator);
        }
        let name_vec = subrange_chars(&chars, 0, i);
        let name = chars_to_string(&name_vec);
        proof {
            assert(name@ =~= value@.take(i as int));
        }
        if !Self::is_valid_name(name.as_str()) {
            return Err(WrapError::InvalidVariableName);
        }
        let value_vec = subrange_chars(&chars, i + 1, n);
        let val = chars_to_string(&value_vec);
        proof {
            assert(val@ =~= value@.skip(i as int + 1));
        }
        Ok(Variable { name, value: val })
    }

    /// Whether `name` fits the strict variable name grammar.
    pub fn is_valid_name(name: &str) -> (r: bool)
        ensures
            r == spec_valid_name(name@),
    {
        let chars = str_to_chars(name);
        let n = chars.len();
        if n == 0 {
            return false;
        }
        let mut i: usize = 0;
        while i < n
            invariant
                n == chars@.len(),
                chars@ == name@,
                i <= n,
                forall|j: int| 0 <= j < i ==> valid_name_char(#[trigger] name@[j], j == 0),
            decreases n - i,
        {
            let c = chars[i];
            if c != '_' {
                if i == 0 && !char_is_alphabetic(c) {
                    return false;
                }
                if !char_is_alphanumeric(c) {
                    return false;
                }
            }
            i = i + 1;
        }
        true
    }

    /// Appends the `export` line for this variable to `writer`. Writing to
    /// a string cannot fail, so the result is always `Ok`; the `Result`
    /// keeps the shape callers of a generic writer expect.
    pub fn write_bash_line(&self, writer: &mut String) -> (r: Result<(), WrapError>)
        ensures
            r is Ok,
            final(writer)@ == old(writer)@ + spec_bash_line(self.name@, self.value@),
    {
        writer.append("export ");
        writer.append(self.name.as_str());
        writer.append("=\"");
        let bytes = self.value.as_str().as_bytes_vec();
        let escaped = escape_ascii(&bytes);
        writer.append(escaped.as_str());
        writer.append("\"\n");
        proof {
            assert(writer@ =~= old(writer)@ + spec_bash_line(self.name@, self.value@));
        }
        Ok(())
    }

    /// Hands the variable back as its own owner. Name and value are owned
    /// strings already, so this is the identity.
    pub fn into_owned(self) -> (r: Variable)
        ensures
            r == self,
    {
        Variable { name: self.name, value: self.value }
    }
}

impl PartialEq for Variable {
    fn eq(&self, other: &Variable) -> bool {
        self.name == other.name && self.value == other.value
    }
}

impl vstd::std_specs::cmp::PartialEqSpecImpl for Variable {
    open spec fn obeys_eq_spec() -> bool {
        true
    }

    open spec fn eq_spec(&self, other: &Variable) -> bool {
        self.name@ == other.name@ && self.value@ == other.value@
    }
}

} // verus!
