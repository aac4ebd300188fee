//! The executable loader: decode the input bytes as UTF-8, parse the
//! characters against the document grammar, and return the record or a
//! classified error. Every function here is proved against the
//! specification functions of [`crate::grammar`].

use vstd::prelude::*;
use vstd::string::StrSliceExecFns;
use vstd::utf8::{decode_utf8, valid_utf8};

use crate::grammar::{
    closes_after, doc_text, escape_char, field_from, has_key_at, is_ws, lemma_decode_no_longer,
    load_result, scan_string, skip_ws,
};
use crate::record::{LoadError, Record};

verus! {

/// Relies on `std::str::from_utf8`: it returns `Ok` exactly when the
/// bytes are valid UTF-8, the string's characters are then the decoding
/// of the bytes, and on failure `Utf8Error::valid_up_to` is an index
/// into the input.
#[verifier::external_body]
fn utf8_to_str(bytes: &[u8]) -> (r: Result<&str, usize>)
    ensures
        r matches Ok(s) ==> valid_utf8(bytes@) && s@ == decode_utf8(bytes@),
        r matches Err(n) ==> !valid_utf8(bytes@) && n <= bytes@.len(),
{
    match std::str::from_utf8(bytes) {
        Ok(s) => Ok(s),
        Err(e) => Err(e.valid_up_to()),
    }
}

/// Relies on `String`'s `FromIterator<char>`: collecting characters
/// yields the string of exactly those characters, in order.
#[verifier::external_body]
fn string_from_chars(chars: Vec<char>) -> (r: String)
    ensures
        r@ == chars@,
{
    chars.into_iter().collect()
}

/// Copies the characters of `s` into a vector.
fn str_to_chars(s: &str) -> (r: Vec<char>)
    ensures
        r@ == s@,
{
    let n = s.unicode_len();
    let mut v: Vec<char> = Vec::new();
    let mut i: usize = 0;
    while i < n
        invariant
            n == s@.len(),
            i <= n,
            v@ == s@.subrange(0, i as int),
        decreases n - i,
    {
        let c = s.get_char(i);
        v.push(c);
        i = i + 1;
        proof {
            assert(v@ =~= s@.subrange(0, i as int));
        }
    }
    proof {
        assert(v@ =~= s@);
    }
    v
}

fn is_ws_exec(c: char) -> (b: bool)
    ensures
        b == is_ws(c),
{
    c == ' ' || c == '\t' || c == '\n' || c == '\r'
}

fn skip_ws_exec(cs: &Vec<char>, i: usize) -> (r: usize)
    requires
        i <= cs@.len(),
    ensures
        r == skip_ws(cs@, i as int),
        i <= r <= cs@.len(),
{
    let mut j = i;
    while j < cs.len() && is_ws_exec(cs[j])
        invariant
            i <= j <= cs@.len(),
            skip_ws(cs@, i as int) == skip_ws(cs@, j as int),
        decreases cs@.len() - j,
    {
        j = j + 1;
    }
    j
}

fn escape_exec(c: char) -> (r: Option<char>)
    ensures
        r == escape_char(c),
{
    if c == '"' {
        Some('"')
    } else if c == '\\' {
        Some('\\')
    } else if c == 'n' {
        Some('\n')
    } else if c == 't' {
        Some('\t')
    } else if c == 'r' {
        Some('\r')
    } else if c == '0' {
        Some('\u{0}')
    } else {
        None
    }
}

/// Scans a string literal's body from `i` (just past the opening quote),
/// unescaping as it goes. `Err` carries the position of the failure.
fn scan_string_exec(cs: &Vec<char>, i: usize) -> (r: Result<(Vec<char>, usize), usize>)
    requires
        i <= cs@.len(),
    ensures
        r matches Ok(p) ==> scan_string(cs@, i as int) matches Some(q) && q.0 == p.0@ && q.1
            == p.1 as int && i < p.1 <= cs@.len(),
        r matches Err(e) ==> scan_string(cs@, i as int) is None && e <= cs@.len(),
{
    let mut j = i;
    let mut out: Vec<char> = Vec::new();
    loop
        invariant
            i <= j <= cs@.len(),
            match scan_string(cs@, j as int) {
                Some(q) => scan_string(cs@, i as int) == Some((out@ + q.0, q.1)),
                None => scan_string(cs@, i as int) is None,
            },
        decreases cs@.len() - j,
    {
        if j >= cs.len() {
            return Err(j);
        }
        let c = cs[j];
        if c == '"' {
            proof {
                assert(out@ + Seq::<char>::empty() =~= out@);
            }
            return Ok((out, j + 1));
        } else if c == '\\' {
            if j + 1 >= cs.len() {
                return Err(j);
            }
            match escape_exec(cs[j + 1]) {
                Some(e) => {
                    let ghost out0 = out@;
                    out.push(e);
                    j = j + 2;
                    proof {
                        match scan_string(cs@, j as int) {
                            Some(q) => {
                                assert(out0 + (seq![e] + q.0) =~= out@ + q.0);
                            },
                            None => {},
                        }
                    }
                },
                None => {
                    return Err(j + 1);
                },
            }
        } else {
            let ghost out0 = out@;
            out.push(c);
            j = j + 1;
            proof {
                match scan_string(cs@, j as int) {
                    Some(q) => {
                        assert(out0 + (seq![c] + q.0) =~= out@ + q.0);
                    },
                    None => {},
                }
            }
        }
    }
}

/// Parses the field `test_field : "<string>"` at `i`. `Err` carries the
/// position of the failure.
fn field_from_exec(cs: &Vec<char>, i: usize) -> (r: Result<(Vec<char>, usize), usize>)
    requires
        i <= cs@.len(),
    ensures
        r matches Ok(p) ==> field_from(cs@, i as int) matches Some(q) && q.0 == p.0@ && q.1
            == p.1 as int && i < p.1 <= cs@.len(),
        r matches Err(e) ==> field_from(cs@, i as int) is None && e <= cs@.len(),
{
    if cs.len() - i < 10 {
        return Err(i);
    }
    let key_here = cs[i] == 't' && cs[i + 1] == 'e' && cs[i + 2] == 's' && cs[i + 3] == 't' && cs[i
        + 4] == '_' && cs[i + 5] == 'f' && cs[i + 6] == 'i' && cs[i + 7] == 'e' && cs[i + 8] == 'l'
        && cs[i + 9] == 'd';
    if !key_here {
        return Err(i);
    }
    assert(has_key_at(cs@, i as int));
    let j = skip_ws_exec(cs, i + 10);
    if j >= cs.len() || cs[j] != ':' {
        return Err(j);
    }
    let k = skip_ws_exec(cs, j + 1);
    if k >= cs.len() || cs[k] != '"' {
        return Err(k);
    }
    match scan_string_exec(cs, k + 1) {
        Ok(p) => Ok(p),
        Err(e) => Err(e),
    }
}

fn closes_after_exec(cs: &Vec<char>, j: usize, close: char) -> (b: bool)
    requires
        j <= cs@.len(),
    ensures
        b == closes_after(cs@, j as int, close),
{
    let m = skip_ws_exec(cs, j);
    if m < cs.len() && cs[m] == ',' {
        let m2 = skip_ws_exec(cs, m + 1);
        m2 < cs.len() && cs[m2] == close && skip_ws_exec(cs, m2 + 1) == cs.len()
    } else {
        m < cs.len() && cs[m] == close && skip_ws_exec(cs, m + 1) == cs.len()
    }
}

/// Parses a whole document. `Err` carries the position of the failure.
fn doc_text_exec(cs: &Vec<char>) -> (r: Result<Vec<char>, usize>)
    ensures
        r matches Ok(t) ==> doc_text(cs@) == Some(t@),
        r matches Err(e) ==> doc_text(cs@) is None && e <= cs@.len(),
{
    let i = skip_ws_exec(cs, 0);
    if i < cs.len() && (cs[i] == '{' || cs[i] == '(') {
        let close = if cs[i] == '{' {
            '}'
        } else {
            ')'
        };
        let j = skip_ws_exec(cs, i + 1);
        match field_from_exec(cs, j) {
            Ok(p) => {
                if closes_after_exec(cs, p.1, close) {
                    Ok(p.0)
                } else {
                    Err(p.1)
                }
            },
            Err(e) => Err(e),
        }
    } else {
        match field_from_exec(cs, i) {
            Ok(p) => {
                let e = skip_ws_exec(cs, p.1);
                if e == cs.len() {
                    Ok(p.0)
                } else {
                    Err(e)
                }
            },
            Err(e) => Err(e),
        }
    }
}

/// Parses `bytes` as a document and returns its record.
///
/// Succeeds, with the record carrying the document's field text, exactly
/// when [`load_result`] gives that text; on any other input the error is
/// a `FormatError`, whose position points at the failing byte (for input
/// that is not UTF-8) or character, and never lies beyond the input. The
/// function is pure: it reads nothing but its argument.
pub fn load(bytes: &[u8]) -> (r: Result<Record, LoadError>)
    ensures
        r matches Ok(rec) ==> load_result(bytes@) == Some(rec.test_field@),
        r matches Err(e) ==> {
            &&& load_result(bytes@) is None
            &&& e matches LoadError::FormatError { pos } && pos <= bytes@.len()
        },
{
    match utf8_to_str(bytes) {
        Err(n) => Err(LoadError::FormatError { pos: n }),
        Ok(s) => {
            let cs = str_to_chars(s);
            proof {
                lemma_decode_no_longer(bytes@);
            }
            match doc_text_exec(&cs) {
                Ok(t) => Ok(Record { test_field: string_from_chars(t) }),
                Err(p) => Err(LoadError::FormatError { pos: p }),
            }
        },
    }
}

/// The two-step pipeline around an external read: a read that failed
/// (`None`) is an `IoError`, never a `FormatError`; a completed read
/// hands its bytes to [`load`].
pub fn load_read_outcome(outcome: Option<Vec<u8>>) -> (r: Result<Record, LoadError>)
    ensures
        outcome matches Some(b) ==> {
            &&& r matches Ok(rec) ==> load_result(b@) == Some(rec.test_field@)
            &&& r matches Err(e) ==> {
                &&& load_result(b@) is None
                &&& e matches LoadError::FormatError { pos } && pos <= b@.len()
            }
        },
        outcome is None ==> (r matches Err(e) && e is IoError),
{
    match outcome {
        Some(b) => load(b.as_slice()),
        None => Err(LoadError::IoError),
    }
}

/// The file-extension list this loader claims, a single compound suffix.
/// Dispatch by extension is the caller's concern.
pub fn extensions() -> (r: Vec<&'static str>)
    ensures
        r@.len() == 1,
        r@[0]@ == "test.ron"@,
{
    let mut v: Vec<&'static str> = Vec::new();
    v.push("test.ron");
    v
}

} // verus!
