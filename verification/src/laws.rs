//! Laws of the loader, proved against the grammar of [`crate::grammar`]:
//! round-trip fidelity for the field text (with and without escape
//! sequences), determinism of loading, and rejection of inputs that
//! carry no document or no required key.

use vstd::prelude::*;
use vstd::utf8::{decode_utf8, encode_utf8, encode_utf8_decode_utf8, encode_utf8_valid_utf8,
    valid_utf8};

use crate::grammar::{doc_text, escape_char, field_from, has_key_at, key_chars, load_result,
    scan_string, skip_ws};
use crate::record::Record;

verus! {

/// The bare document `test_field: "<body>"` around a string body.
pub open spec fn bare_document(body: Seq<char>) -> Seq<char> {
    key_chars() + seq![':', ' ', '"'] + body + seq!['"']
}

/// True for the characters the format writes escaped inside a string
/// literal.
pub open spec fn needs_escape(c: char) -> bool {
    c == '"' || c == '\\' || c == '\n' || c == '\t' || c == '\r' || c == '\u{0}'
}

/// The character standing after the backslash when `c` is written
/// escaped.
pub open spec fn escape_code(c: char) -> char
    recommends
        needs_escape(c),
{
    if c == '"' {
        '"'
    } else if c == '\\' {
        '\\'
    } else if c == '\n' {
        'n'
    } else if c == '\t' {
        't'
    } else if c == '\r' {
        'r'
    } else {
        '0'
    }
}

/// A text written as a string body: the characters the format reserves
/// are escaped, all others stand as themselves.
pub open spec fn escaped(text: Seq<char>) -> Seq<char>
    decreases text.len(),
{
    if text.len() == 0 {
        Seq::empty()
    } else {
        let head = if needs_escape(text[0]) {
            seq!['\\', escape_code(text[0])]
        } else {
            seq![text[0]]
        };
        head + escaped(text.drop_first())
    }
}

/// A document's bytes are the UTF-8 encoding of its characters, so a
/// load of the encoding of any character sequence is exactly the
/// grammar's answer on that sequence.
pub proof fn lemma_load_of_encoding(cs: Seq<char>)
    ensures
        load_result(encode_utf8(cs)) == doc_text(cs),
{
    encode_utf8_valid_utf8(cs);
    encode_utf8_decode_utf8(cs);
}

/// A run of characters free of quotes and backslashes, closed by a
/// quote, scans to exactly that run.
pub proof fn lemma_scan_plain(cs: Seq<char>, i: int, j: int)
    requires
        0 <= i <= j < cs.len(),
        cs[j] == '"',
        forall|m: int| i <= m < j ==> cs[m] != '"' && cs[m] != '\\',
    ensures
        scan_string(cs, i) == Some((cs.subrange(i, j), j + 1)),
    decreases j - i,
{
    if i == j {
        assert(cs.subrange(i, j) =~= Seq::<char>::empty());
    } else {
        lemma_scan_plain(cs, i + 1, j);
        assert(seq![cs[i]] + cs.subrange(i + 1, j) =~= cs.subrange(i, j));
    }
}

/// The escaped rendering of any text, closed by a quote, scans back to
/// exactly that text.
pub proof fn lemma_scan_escaped(cs: Seq<char>, i: int, j: int, text: Seq<char>)
    requires
        0 <= i <= j < cs.len(),
        cs[j] == '"',
        cs.subrange(i, j) == escaped(text),
    ensures
        scan_string(cs, i) == Some((text, j + 1)),
    decreases text.len(),
{
    assert(cs.subrange(i, j).len() == j - i);
    if text.len() == 0 {
        assert(j == i);
        assert(text =~= Seq::<char>::empty());
    } else {
        let c = text[0];
        let rest = text.drop_first();
        if needs_escape(c) {
            assert(escaped(text) == seq!['\\', escape_code(c)] + escaped(rest));
            assert(cs[i] == cs.subrange(i, j)[0] && cs[i + 1] == cs.subrange(i, j)[1]);
            assert(cs[i] == '\\' && cs[i + 1] == escape_code(c));
            assert(escape_char(escape_code(c)) == Some(c));
            assert forall|k: int| 0 <= k < j - (i + 2) implies cs.subrange(i + 2, j)[k] == escaped(
                rest,
            )[k] by {
                assert(cs.subrange(i + 2, j)[k] == cs.subrange(i, j)[k + 2]);
            }
            assert(cs.subrange(i + 2, j) =~= escaped(rest));
            lemma_scan_escaped(cs, i + 2, j, rest);
            assert(seq![c] + rest =~= text);
        } else {
            assert(escaped(text) == seq![c] + escaped(rest));
            assert(cs[i] == cs.subrange(i, j)[0]);
            assert(cs[i] == c && c != '"' && c != '\\');
            assert forall|k: int| 0 <= k < j - (i + 1) implies cs.subrange(i + 1, j)[k] == escaped(
                rest,
            )[k] by {
                assert(cs.subrange(i + 1, j)[k] == cs.subrange(i, j)[k + 1]);
            }
            assert(cs.subrange(i + 1, j) =~= escaped(rest));
            lemma_scan_escaped(cs, i + 1, j, rest);
            assert(seq![c] + rest =~= text);
        }
    }
}

/// The bare document around a string body is well-formed, and its field
/// text is whatever the body scans to.
proof fn lemma_bare_document(body: Seq<char>, text: Seq<char>)
    requires
        scan_string(bare_document(body), 13) == Some(
            (text, bare_document(body).len() as int),
        ),
    ensures
        doc_text(bare_document(body)) == Some(text),
{
    let cs = bare_document(body);
    let n = body.len() as int;
    assert(cs.len() == n + 14);
    assert(cs[0] == 't' && cs[1] == 'e' && cs[2] == 's' && cs[3] == 't' && cs[4] == '_' && cs[5]
        == 'f' && cs[6] == 'i' && cs[7] == 'e' && cs[8] == 'l' && cs[9] == 'd' && cs[10] == ':'
        && cs[11] == ' ' && cs[12] == '"');
    assert(skip_ws(cs, 0) == 0);
    assert(has_key_at(cs, 0));
    assert(skip_ws(cs, 10) == 10);
    assert(skip_ws(cs, 12) == 12);
    assert(skip_ws(cs, 11) == 12);
    assert(field_from(cs, 0) == Some((text, n + 14)));
    assert(skip_ws(cs, n + 14) == n + 14);
}

/// Round-trip fidelity for plain text: any text free of quote and
/// backslash characters, written as the bare document
/// `test_field: "<text>"` and encoded as UTF-8, loads back to exactly
/// that text.
pub proof fn lemma_plain_round_trip(text: Seq<char>)
    requires
        forall|k: int| 0 <= k < text.len() ==> text[k] != '"' && text[k] != '\\',
    ensures
        load_result(encode_utf8(bare_document(text))) == Some(text),
{
    let cs = bare_document(text);
    let n = text.len() as int;
    assert(cs.len() == n + 14);
    assert(cs[n + 13] == '"');
    assert forall|m: int| 13 <= m < n + 13 implies (cs[m] == text[m - 13] && cs[m] != '"' && cs[m]
        != '\\') by {
        assert(cs[m] == text[m - 13]);
        assert(text[m - 13] != '"' && text[m - 13] != '\\');
    }
    lemma_scan_plain(cs, 13, n + 13);
    assert(cs.subrange(13, n + 13) =~= text);
    lemma_bare_document(text, text);
    lemma_load_of_encoding(cs);
}

/// Round-trip fidelity with escape sequences: any text at all, written
/// escaped as the bare document `test_field: "<escaped text>"` and
/// encoded as UTF-8, loads back to exactly that text.
pub proof fn lemma_escaped_round_trip(text: Seq<char>)
    ensures
        load_result(encode_utf8(bare_document(escaped(text)))) == Some(text),
{
    let body = escaped(text);
    let cs = bare_document(body);
    let n = body.len() as int;
    assert(cs.len() == n + 14);
    assert(cs[n + 13] == '"');
    assert forall|k: int| 0 <= k < n implies cs.subrange(13, n + 13)[k] == body[k] by {
        assert(cs.subrange(13, n + 13)[k] == cs[13 + k]);
    }
    assert(cs.subrange(13, n + 13) =~= body);
    lemma_scan_escaped(cs, 13, n + 13, text);
    lemma_bare_document(body, text);
    lemma_load_of_encoding(cs);
}

/// Loading is deterministic: two successful loads of the same bytes
/// yield value-equal records.
pub proof fn lemma_load_deterministic(bytes: Seq<u8>, first: Record, second: Record)
    requires
        load_result(bytes) == Some(first.test_field@),
        load_result(bytes) == Some(second.test_field@),
    ensures
        first.test_field@ == second.test_field@,
{
}

/// An empty byte sequence holds no document: a load of it fails.
pub proof fn lemma_empty_input_rejected()
    ensures
        load_result(Seq::<u8>::empty()) is None,
{
    let bytes = Seq::<u8>::empty();
    assert(valid_utf8(bytes));
    let cs = decode_utf8(bytes);
    assert(cs =~= Seq::<char>::empty());
    assert(skip_ws(cs, 0) == 0);
    assert(!has_key_at(cs, 0));
    assert(doc_text(cs) is None);
}

/// Text that nowhere carries the required key `test_field` is no
/// document: the field is missing, and the grammar gives no value.
pub proof fn lemma_missing_key_rejected(cs: Seq<char>)
    requires
        forall|i: int| !has_key_at(cs, i),
    ensures
        doc_text(cs) is None,
{
    // The hypothesis, at the two places the grammar looks for the key:
    // directly, and just inside a wrapping delimiter.
    let i = skip_ws(cs, 0);
    assert(!has_key_at(cs, skip_ws(cs, i + 1)));
    assert(!has_key_at(cs, i));
}

} // verus!
