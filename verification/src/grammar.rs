//! The document grammar, at the specification level.
//!
//! A document is the single field `test_field: "<text>"`, optionally
//! wrapped in `{ .. }` or `( .. )`, whitespace-tolerant, with an
//! optional trailing comma inside the wrapping. The field's value must
//! be a string literal; its text is the literal's characters with the
//! recognized escapes decoded. Everything a load must return is fixed
//! by [`load_result`] over the raw input bytes.

use vstd::prelude::*;
use vstd::utf8::{decode_utf8, length_of_first_scalar, pop_first_scalar, valid_utf8};

verus! {

/// Whitespace accepted between the tokens of a document.
pub open spec fn is_ws(c: char) -> bool {
    c == ' ' || c == '\t' || c == '\n' || c == '\r'
}

/// Index of the first character at or after `i` that is not whitespace,
/// or the end of the input.
pub open spec fn skip_ws(cs: Seq<char>, i: int) -> int
    decreases cs.len() - i
        when 0 <= i <= cs.len()
{
    if i < cs.len() && is_ws(cs[i]) {
        skip_ws(cs, i + 1)
    } else {
        i
    }
}

/// The character denoted by the escape `\c`, when `\c` is one of the
/// recognized escapes.
pub open spec fn escape_char(c: char) -> Option<char> {
    if c == '"' {
        Some('"')
    } else if c == '\\' {
        Some('\\')
    } else if c == 'n' {
        Some('\n')
    } else if c == 't' {
        Some('\t')
    } else if c == 'r' {
        Some('\r')
    } else if c == '0' {
        Some('\u{0}')
    } else {
        None
    }
}

/// Scans a string literal's body beginning at `i`, just past the opening
/// quote. Returns the unescaped text and the index just past the closing
/// quote; `None` when the literal is unterminated or holds an unknown
/// escape.
pub open spec fn scan_string(cs: Seq<char>, i: int) -> Option<(Seq<char>, int)>
    decreases cs.len() - i
        when 0 <= i <= cs.len()
{
    if i >= cs.len() {
        None
    } else if cs[i] == '"' {
        Some((Seq::empty(), i + 1))
    } else if cs[i] == '\\' {
        if i + 1 < cs.len() {
            match escape_char(cs[i + 1]) {
                Some(e) => match scan_string(cs, i + 2) {
                    Some(r) => Some((seq![e] + r.0, r.1)),
                    None => None,
                },
                None => None,
            }
        } else {
            None
        }
    } else {
        match scan_string(cs, i + 1) {
            Some(r) => Some((seq![cs[i]] + r.0, r.1)),
            None => None,
        }
    }
}

/// The characters of the one required key, `test_field`.
pub open spec fn key_chars() -> Seq<char> {
    seq!['t', 'e', 's', 't', '_', 'f', 'i', 'e', 'l', 'd']
}

/// True when the required key stands at `i` in `cs`.
pub open spec fn has_key_at(cs: Seq<char>, i: int) -> bool {
    &&& 0 <= i
    &&& i + 10 <= cs.len()
    &&& cs[i] == 't'
    &&& cs[i + 1] == 'e'
    &&& cs[i + 2] == 's'
    &&& cs[i + 3] == 't'
    &&& cs[i + 4] == '_'
    &&& cs[i + 5] == 'f'
    &&& cs[i + 6] == 'i'
    &&& cs[i + 7] == 'e'
    &&& cs[i + 8] == 'l'
    &&& cs[i + 9] == 'd'
}

/// Parses the field `test_field : "<string>"` at `i`. Returns the
/// unescaped field text and the index just past the closing quote.
pub open spec fn field_from(cs: Seq<char>, i: int) -> Option<(Seq<char>, int)>
    recommends
        0 <= i <= cs.len(),
{
    if has_key_at(cs, i) {
        let j = skip_ws(cs, i + 10);
        if j < cs.len() && cs[j] == ':' {
            let k = skip_ws(cs, j + 1);
            if k < cs.len() && cs[k] == '"' {
                scan_string(cs, k + 1)
            } else {
                None
            }
        } else {
            None
        }
    } else {
        None
    }
}

/// True when, after the field ending at `j`, an optional comma, the
/// closing delimiter and trailing whitespace are all that remain.
pub open spec fn closes_after(cs: Seq<char>, j: int, close: char) -> bool
    recommends
        0 <= j <= cs.len(),
{
    let m = skip_ws(cs, j);
    if m < cs.len() && cs[m] == ',' {
        let m2 = skip_ws(cs, m + 1);
        m2 < cs.len() && cs[m2] == close && skip_ws(cs, m2 + 1) == cs.len()
    } else {
        m < cs.len() && cs[m] == close && skip_ws(cs, m + 1) == cs.len()
    }
}

/// A document wrapped in `{ .. }` or `( .. )`, with `i` just past the
/// opening delimiter: the single field, then [`closes_after`].
pub open spec fn wrapped_doc(cs: Seq<char>, i: int, close: char) -> Option<Seq<char>>
    recommends
        0 <= i <= cs.len(),
{
    match field_from(cs, skip_ws(cs, i)) {
        Some(r) => if closes_after(cs, r.1, close) { Some(r.0) } else { None },
        None => None,
    }
}

/// The text of the required field when `cs` is a well-formed document,
/// and `None` when it is not.
pub open spec fn doc_text(cs: Seq<char>) -> Option<Seq<char>> {
    let i = skip_ws(cs, 0);
    if i < cs.len() && cs[i] == '{' {
        wrapped_doc(cs, i + 1, '}')
    } else if i < cs.len() && cs[i] == '(' {
        wrapped_doc(cs, i + 1, ')')
    } else {
        match field_from(cs, i) {
            Some(r) => if skip_ws(cs, r.1) == cs.len() { Some(r.0) } else { None },
            None => None,
        }
    }
}

/// What a load of `bytes` must produce: the field text of the document
/// the bytes encode in UTF-8; `None` when the bytes are not valid UTF-8
/// or do not spell a well-formed document.
pub open spec fn load_result(bytes: Seq<u8>) -> Option<Seq<char>> {
    if valid_utf8(bytes) {
        doc_text(decode_utf8(bytes))
    } else {
        None
    }
}

/// A UTF-8 encoding never holds more characters than bytes: each scalar
/// takes at least one byte. This bounds the positions a parse failure
/// can report.
pub proof fn lemma_decode_no_longer(bytes: Seq<u8>)
    requires
        valid_utf8(bytes),
    ensures
        decode_utf8(bytes).len() <= bytes.len(),
    decreases bytes.len(),
{
    if bytes.len() != 0 {
        assert(1 <= length_of_first_scalar(bytes) <= bytes.len());
        lemma_decode_no_longer(pop_first_scalar(bytes));
    }
}

} // verus!
