//! Backslash-escaping of a configurable quote character, the first of the
//! two escaping modes the generators rely on.

use vstd::prelude::*;
use crate::text::{chars_to_string, str_to_chars};

verus! {

/// The backslash-escaping of `q` in `s`: a backslash is put in front of
/// every occurrence of `q`, and no other character is altered.
pub open spec fn spec_escape_quote(s: Seq<char>, q: char) -> Seq<char>
    decreases s.len(),
{
    if s.len() == 0 {
        Seq::empty()
    } else {
        let head = if s[0] == q {
            seq!['\\', s[0]]
        } else {
            seq![s[0]]
        };
        head + spec_escape_quote(s.drop_first(), q)
    }
}

/// Escaping distributes over concatenation.
pub proof fn lemma_escape_quote_append(a: Seq<char>, b: Seq<char>, q: char)
    ensures
        spec_escape_quote(a + b, q) == spec_escape_quote(a, q) + spec_escape_quote(b, q),
    decreases a.len(),
{
    if a.len() == 0 {
        assert(a + b =~= b);
        assert(spec_escape_quote(a, q) + spec_escape_quote(b, q) =~= spec_escape_quote(b, q));
    } else {
        assert((a + b).drop_first() =~= a.drop_first() + b);
        lemma_escape_quote_append(a.drop_first(), b, q);
        assert(spec_escape_quote(a + b, q) =~= spec_escape_quote(a, q) + spec_escape_quote(b, q));
    }
}

/// Returns `value` with every occurrence of `quote` preceded by a backslash
/// and every other character unchanged.
pub fn escape_quote(value: &str, quote: char) -> (r: String)
    ensures
        r@ == spec_escape_quote(value@, quote),
{
    let chars = str_to_chars(value);
    let mut out: Vec<char> = Vec::new();
    let mut i: usize = 0;
    while i < chars.len()
        invariant
            chars@ == value@,
            i <= chars@.len(),
            out@ == spec_escape_quote(value@.take(i as int), quote),
        decreases chars@.len() - i,
    {
        let c = chars[i];
        if c == quote {
            out.push('\\');
        }
        out.push(c);
        proof {
            let t1 = value@.take(i as int);
            let one = seq![value@[i as int]];
            assert(one.len() == 1 && one[0] == value@[i as int]);
            assert(one.drop_first() =~= Seq::<char>::empty());
            assert(spec_escape_quote(Seq::<char>::empty(), quote) == Seq::<char>::empty());
            if value@[i as int] == quote {
                assert(spec_escape_quote(one, quote) =~= seq!['\\', value@[i as int]]);
            } else {
                assert(spec_escape_quote(one, quote) =~= seq![value@[i as int]]);
            }
            lemma_escape_quote_append(t1, one, quote);
            assert(value@.take(i as int + 1) =~= t1 + one);
            assert(out@ =~= spec_escape_quote(t1, quote) + spec_escape_quote(one, quote));
            assert(out@ == spec_escape_quote(value@.take(i as int + 1), quote));
        }
        i = i + 1;
    }
    proof {
        assert(value@.take(chars@.len() as int) =~= value@);
    }
    chars_to_string(&out)
}

/// Law: the escaped text contains no unescaped occurrence of the quote
/// character — wherever the quote character stands in the result, a
/// backslash stands directly before it. (Stated for quote characters other
/// than the backslash itself: escaping the escape character inserts
/// backslashes that are not themselves escaped.)
pub proof fn lemma_escape_quote_all_escaped(s: Seq<char>, q: char)
    requires
        q != '\\',
    ensures
        forall|i: int|
            0 <= i < spec_escape_quote(s, q).len() && #[trigger] spec_escape_quote(s, q)[i] == q
                ==> i > 0 && spec_escape_quote(s, q)[i - 1] == '\\',
    decreases s.len(),
{
    if s.len() == 0 {
    } else {
        let r = spec_escape_quote(s, q);
        let rest = spec_escape_quote(s.drop_first(), q);
        lemma_escape_quote_all_escaped(s.drop_first(), q);
        let hl: int = if s[0] == q { 2 } else { 1 };
        assert forall|i: int| 0 <= i < r.len() && #[trigger] r[i] == q implies i > 0 && r[i - 1]
            == '\\' by {
            if i >= hl {
                assert(r[i] == rest[i - hl]);
                assert(i - hl > 0);
                assert(r[i - 1] == rest[i - hl - 1]);
            }
        }
    }
}

/// Law: a text free of the quote character is returned unchanged.
pub proof fn lemma_escape_quote_identity(s: Seq<char>, q: char)
    requires
        forall|i: int| 0 <= i < s.len() ==> s[i] != q,
    ensures
        spec_escape_quote(s, q) == s,
    decreases s.len(),
{
    if s.len() == 0 {
        assert(spec_escape_quote(s, q) =~= s);
    } else {
        assert(forall|i: int|
            0 <= i < s.drop_first().len() ==> s.drop_first()[i] == s[i + 1] && s[i + 1] != q);
        lemma_escape_quote_identity(s.drop_first(), q);
        assert(spec_escape_quote(s, q) =~= s);
    }
}

/// `escaped`, wrapped in double quotes.
pub open spec fn spec_quoted(escaped: Seq<char>) -> Seq<char> {
    "\""@ + escaped + "\""@
}

/// The embedding of `s` between single quotes in a shell word: every
/// single quote becomes `'\''` (close the quotes, escape one quote, open
/// them again); every other character is unchanged.
pub open spec fn spec_escape_single_quoted(s: Seq<char>) -> Seq<char>
    decreases s.len(),
{
    if s.len() == 0 {
        Seq::empty()
    } else {
        let head = if s[0] == '\'' {
            seq!['\'', '\\', '\'', '\'']
        } else {
            seq![s[0]]
        };
        head + spec_escape_single_quoted(s.drop_first())
    }
}

/// Single-quote embedding distributes over concatenation.
pub proof fn lemma_escape_single_quoted_append(a: Seq<char>, b: Seq<char>)
    ensures
        spec_escape_single_quoted(a + b) == spec_escape_single_quoted(a)
            + spec_escape_single_quoted(b),
    decreases a.len(),
{
    if a.len() == 0 {
        assert(a + b =~= b);
        assert(spec_escape_single_quoted(a) + spec_escape_single_quoted(b)
            =~= spec_escape_single_quoted(b));
    } else {
        assert((a + b).drop_first() =~= a.drop_first() + b);
        lemma_escape_single_quoted_append(a.drop_first(), b);
        assert(spec_escape_single_quoted(a + b) =~= spec_escape_single_quoted(a)
            + spec_escape_single_quoted(b));
    }
}

/// Returns `value` rewritten so that it can stand between single quotes in
/// a shell word: total for every input.
pub fn escape_single_quoted(value: &str) -> (r: String)
    ensures
        r@ == spec_escape_single_quoted(value@),
{
    let chars = str_to_chars(value);
    let mut out: Vec<char> = Vec::new();
    let mut i: usize = 0;
    while i < chars.len()
        invariant
            chars@ == value@,
            i <= chars@.len(),
            out@ == spec_escape_single_quoted(value@.take(i as int)),
        decreases chars@.len() - i,
    {
        let c = chars[i];
        if c == '\'' {
            out.push('\'');
            out.push('\\');
            out.push('\'');
            out.push('\'');
        } else {
            out.push(c);
        }
        proof {
            let t1 = value@.take(i as int);
            let one = seq![value@[i as int]];
            assert(one.len() == 1 && one[0] == value@[i as int]);
            assert(one.drop_first() =~= Seq::<char>::empty());
            assert(spec_escape_single_quoted(Seq::<char>::empty()) == Seq::<char>::empty());
            if value@[i as int] == '\'' {
                assert(spec_escape_single_quoted(one) =~= seq!['\'', '\\', '\'', '\'']);
            } else {
                assert(spec_escape_single_quoted(one) =~= seq![value@[i as int]]);
            }
            lemma_escape_single_quoted_append(t1, one);
            assert(value@.take(i as int + 1) =~= t1 + one);
            assert(out@ =~= spec_escape_single_quoted(value@.take(i as int + 1)));
        }
        i = i + 1;
    }
    proof {
        assert(value@.take(chars@.len() as int) =~= value@);
    }
    chars_to_string(&out)
}

/// The lower-case hexadecimal digit for a value below 16.
pub open spec fn spec_hex_digit(n: u8) -> char
    recommends
        n < 16,
{
    if n == 0 {
        '0'
    } else if n == 1 {
        '1'
    } else if n == 2 {
        '2'
    } else if n == 3 {
        '3'
    } else if n == 4 {
        '4'
    } else if n == 5 {
        '5'
    } else if n == 6 {
        '6'
    } else if n == 7 {
        '7'
    } else if n == 8 {
        '8'
    } else if n == 9 {
        '9'
    } else if n == 10 {
        'a'
    } else if n == 11 {
        'b'
    } else if n == 12 {
        'c'
    } else if n == 13 {
        'd'
    } else if n == 14 {
        'e'
    } else {
        'f'
    }
}

/// The ASCII-safe escape of one byte: printable ASCII other than the
/// backslash and the two quote characters passes through unchanged; tab,
/// carriage return, newline, backslash and the quotes get their two-character
/// escape; every other byte becomes a `\xNN` sequence in lower-case hex.
pub open spec fn spec_escape_byte(b: u8) -> Seq<char> {
    if b == 9 {
        seq!['\\', 't']
    } else if b == 13 {
        seq!['\\', 'r']
    } else if b == 10 {
        seq!['\\', 'n']
    } else if b == 92 {
        seq!['\\', '\\']
    } else if b == 39 {
        seq!['\\', '\'']
    } else if b == 34 {
        seq!['\\', '"']
    } else if 0x20 <= b && b <= 0x7e {
        seq![b as char]
    } else {
        seq!['\\', 'x', spec_hex_digit(b / 16), spec_hex_digit(b % 16)]
    }
}

/// The ASCII-safe escape of a byte sequence, byte by byte.
pub open spec fn spec_escape_bytes(bs: Seq<u8>) -> Seq<char>
    decreases bs.len(),
{
    if bs.len() == 0 {
        Seq::empty()
    } else {
        spec_escape_byte(bs[0]) + spec_escape_bytes(bs.drop_first())
    }
}

/// Byte escaping distributes over concatenation.
pub proof fn lemma_escape_bytes_append(a: Seq<u8>, b: Seq<u8>)
    ensures
        spec_escape_bytes(a + b) == spec_escape_bytes(a) + spec_escape_bytes(b),
    decreases a.len(),
{
    if a.len() == 0 {
        assert(a + b =~= b);
        assert(spec_escape_bytes(a) + spec_escape_bytes(b) =~= spec_escape_bytes(b));
    } else {
        assert((a + b).drop_first() =~= a.drop_first() + b);
        lemma_escape_bytes_append(a.drop_first(), b);
        assert(spec_escape_bytes(a + b) =~= spec_escape_bytes(a) + spec_escape_bytes(b));
    }
}

/// Returns the lower-case hexadecimal digit for a value below 16.
fn hex_digit(n: u8) -> (c: char)
    requires
        n < 16,
    ensures
        c == spec_hex_digit(n),
{
    if n == 0 {
        '0'
    } else if n == 1 {
        '1'
    } else if n == 2 {
        '2'
    } else if n == 3 {
        '3'
    } else if n == 4 {
        '4'
    } else if n == 5 {
        '5'
    } else if n == 6 {
        '6'
    } else if n == 7 {
        '7'
    } else if n == 8 {
        '8'
    } else if n == 9 {
        '9'
    } else if n == 10 {
        'a'
    } else if n == 11 {
        'b'
    } else if n == 12 {
        'c'
    } else if n == 13 {
        'd'
    } else if n == 14 {
        'e'
    } else {
        'f'
    }
}

/// Appends the escape of one byte to `out`.
fn push_escaped_byte(out: &mut Vec<char>, b: u8)
    ensures
        final(out)@ == old(out)@ + spec_escape_byte(b),
{
    if b == 9 {
        out.push('\\');
        out.push('t');
    } else if b == 13 {
        out.push('\\');
        out.push('r');
    } else if b == 10 {
        out.push('\\');
        out.push('n');
    } else if b == 92 {
        out.push('\\');
        out.push('\\');
    } else if b == 39 {
        out.push('\\');
        out.push('\'');
    } else if b == 34 {
        out.push('\\');
        out.push('"');
    } else if 0x20 <= b && b <= 0x7e {
        out.push(b as char);
    } else {
        out.push('\\');
        out.push('x');
        out.push(hex_digit(b / 16));
        out.push(hex_digit(b % 16));
    }
    proof {
        assert(out@ =~= old(out)@ + spec_escape_byte(b));
    }
}

/// Returns the ASCII-safe escape of a byte sequence: printable ASCII passes
/// through, everything else becomes a backslash escape.
pub fn escape_ascii(bytes: &Vec<u8>) -> (r: String)
    ensures
        r@ == spec_escape_bytes(bytes@),
{
    let mut out: Vec<char> = Vec::new();
    let mut i: usize = 0;
    while i < bytes.len()
        invariant
            i <= bytes@.len(),
            out@ == spec_escape_bytes(bytes@.take(i as int)),
        decreases bytes@.len() - i,
    {
        push_escaped_byte(&mut out, bytes[i]);
        proof {
            let t1 = bytes@.take(i as int);
            let one = seq![bytes@[i as int]];
            assert(one.len() == 1 && one[0] == bytes@[i as int]);
            assert(one.drop_first() =~= Seq::<u8>::empty());
            assert(spec_escape_bytes(Seq::<u8>::empty()) == Seq::<char>::empty());
            assert(spec_escape_bytes(one) =~= spec_escape_byte(bytes@[i as int]));
            lemma_escape_bytes_append(t1, one);
            assert(bytes@.take(i as int + 1) =~= t1 + one);
            assert(out@ =~= spec_escape_bytes(bytes@.take(i as int + 1)));
        }
        i = i + 1;
    }
    proof {
        assert(bytes@.take(bytes@.len() as int) =~= bytes@);
    }
    chars_to_string(&out)
}

/// The byte value a lower-case hexadecimal digit stands for.
pub open spec fn spec_hex_val(c: char) -> Option<u8> {
    if c == '0' {
        Some(0u8)
    } else if c == '1' {
        Some(1u8)
    } else if c == '2' {
        Some(2u8)
    } else if c == '3' {
        Some(3u8)
    } else if c == '4' {
        Some(4u8)
    } else if c == '5' {
        Some(5u8)
    } else if c == '6' {
        Some(6u8)
    } else if c == '7' {
        Some(7u8)
    } else if c == '8' {
        Some(8u8)
    } else if c == '9' {
        Some(9u8)
    } else if c == 'a' {
        Some(10u8)
    } else if c == 'b' {
        Some(11u8)
    } else if c == 'c' {
        Some(12u8)
    } else if c == 'd' {
        Some(13u8)
    } else if c == 'e' {
        Some(14u8)
    } else if c == 'f' {
        Some(15u8)
    } else {
        None
    }
}

/// Reads an escaped byte sequence back until the closing double quote:
/// the mathematical inverse of [`spec_escape_bytes`] inside a double-quoted
/// region. Returns the decoded bytes and what follows the closing quote,
/// or `None` where the text is not a well-formed quoted escape.
pub open spec fn spec_unescape(s: Seq<char>) -> Option<(Seq<u8>, Seq<char>)>
    decreases s.len(),
{
    if s.len() == 0 {
        None
    } else if s[0] == '"' {
        Some((Seq::empty(), s.drop_first()))
    } else if s[0] == '\\' {
        if s.len() < 2 {
            None
        } else if s[1] == 'x' {
            if s.len() < 4 {
                None
            } else {
                match (spec_hex_val(s[2]), spec_hex_val(s[3])) {
                    (Some(hi), Some(lo)) => match spec_unescape(s.skip(4)) {
                        Some((bs, rest)) => Some((seq![(hi * 16 + lo) as u8] + bs, rest)),
                        None => None,
                    },
                    _ => None,
                }
            }
        } else {
            let b_opt: Option<u8> = if s[1] == 't' {
                Some(9u8)
            } else if s[1] == 'r' {
                Some(13u8)
            } else if s[1] == 'n' {
                Some(10u8)
            } else if s[1] == '\\' {
                Some(92u8)
            } else if s[1] == '\'' {
                Some(39u8)
            } else if s[1] == '"' {
                Some(34u8)
            } else {
                None
            };
            match b_opt {
                Some(b) => match spec_unescape(s.skip(2)) {
                    Some((bs, rest)) => Some((seq![b] + bs, rest)),
                    None => None,
                },
                None => None,
            }
        }
    } else if 0x20 <= (s[0] as u32) && (s[0] as u32) <= 0x7e {
        match spec_unescape(s.drop_first()) {
            Some((bs, rest)) => Some((seq![(s[0] as u32) as u8] + bs, rest)),
            None => None,
        }
    } else {
        None
    }
}

/// Law: decoding undoes escaping — a quoted, escaped byte sequence reads
/// back as exactly the original bytes, with the text after the closing
/// quote handed back untouched.
pub proof fn lemma_unescape_escape(bs: Seq<u8>, rest: Seq<char>)
    ensures
        spec_unescape(spec_escape_bytes(bs) + seq!['"'] + rest) == Some((bs, rest)),
    decreases bs.len(),
{
    if bs.len() == 0 {
        let s = spec_escape_bytes(bs) + seq!['"'] + rest;
        assert(s =~= seq!['"'] + rest);
        assert(s[0] == '"');
        assert(s.drop_first() =~= rest);
        assert(bs =~= Seq::<u8>::empty());
    } else {
        let b0 = bs[0];
        let tail = bs.drop_first();
        let s = spec_escape_bytes(bs) + seq!['"'] + rest;
        let s_tail = spec_escape_bytes(tail) + seq!['"'] + rest;
        let e = spec_escape_byte(b0);
        assert(s =~= e + s_tail);
        lemma_unescape_escape(tail, rest);
        if b0 == 9 || b0 == 13 || b0 == 10 || b0 == 92 || b0 == 39 || b0 == 34 {
            assert(s[0] == '\\' && s.len() >= 2);
            assert(s[1] == e[1]);
            assert(s[1] != 'x');
            assert(s.skip(2) =~= s_tail);
            assert(seq![b0] + tail =~= bs);
        } else if 0x20 <= b0 && b0 <= 0x7e {
            assert(e =~= seq![b0 as char]);
            assert(s[0] == b0 as char);
            assert((b0 as char) as u32 == b0);
            assert(s[0] != '"' && s[0] != '\\');
            assert(s.drop_first() =~= s_tail);
            assert(((b0 as char) as u32) as u8 == b0);
            assert(seq![b0] + tail =~= bs);
        } else {
            let hi = b0 / 16;
            let lo = b0 % 16;
            assert(s[0] == '\\' && s[1] == 'x');
            assert(s.len() >= 4);
            assert(s[2] == spec_hex_digit(hi) && s[3] == spec_hex_digit(lo));
            assert(spec_hex_val(spec_hex_digit(hi)) == Some(hi));
            assert(spec_hex_val(spec_hex_digit(lo)) == Some(lo));
            assert(s.skip(4) =~= s_tail);
            assert((hi * 16 + lo) as u8 == b0);
            assert(seq![b0] + tail =~= bs);
        }
    }
}

/// The number of occurrences of `q` in `s`.
pub open spec fn count_char(s: Seq<char>, q: char) -> nat
    decreases s.len(),
{
    if s.len() == 0 {
        0
    } else {
        (if s[0] == q {
            1nat
        } else {
            0nat
        }) + count_char(s.drop_first(), q)
    }
}

/// Law: escaping grows the text by exactly one character per occurrence of
/// the quote character.
pub proof fn lemma_escape_quote_len(s: Seq<char>, q: char)
    ensures
        spec_escape_quote(s, q).len() == s.len() + count_char(s, q),
    decreases s.len(),
{
    if s.len() == 0 {
    } else {
        lemma_escape_quote_len(s.drop_first(), q);
    }
}

} // verus!
