//! The JSON envelope of relational query results.
//!
//! A query's rows are modelled as [`SqlRow`] values holding plain data, and
//! the encoder renders them as the byte sequence of a JSON array of row
//! objects, exactly as the spec functions here prescribe: names and text
//! escaped, integers in decimal, byte arrays as padded standard base64,
//! pre-rendered numbers admitted only when they pass the JSON number
//! grammar, and embedded JSON emitted verbatim when it passes the
//! scanner-neutrality gate of [`crate::shape`] (a malformed fragment, which
//! no real backend read produces, renders as null rather than break the
//! envelope).

use vstd::prelude::*;
use vstd::utf8::encode_utf8;
use base64::Engine;
use crate::shape::{
    check_fragment_neutral, column_scans, fragment_neutral, lemma_column_run, lemma_envelope_run,
    lemma_row_run, lemma_value_run, row_scans, scan, value_scans, Scan,
};

verus! {

/// One column value read from a row, as plain data. `Num` carries a
/// pre-rendered number token (the shell renders float columns, since the
/// library holds no floating point); `Json` carries an embedded JSON value
/// verbatim; `Bytes` is rendered as a base64 string.
pub enum SqlValue {
    Null,
    Bool(bool),
    Int(i64),
    Num(String),
    Text(String),
    Json(String),
    Bytes(Vec<u8>),
}

/// One named column of a row, in the order the driver reports.
pub struct SqlColumn {
    pub name: String,
    pub value: SqlValue,
}

/// One row of a query result.
pub struct SqlRow {
    pub columns: Vec<SqlColumn>,
}

/// What the base64 crate's standard, padded engine returns for these bytes.
pub uninterp spec fn base64_std_of(b: Seq<u8>) -> Seq<char>;

/// A character of the standard base64 alphabet, or its padding: a letter, a
/// digit, `+`, `/` or `=`.
pub open spec fn base64_char(c: char) -> bool {
    ||| 65 <= c as u32 <= 90
    ||| 97 <= c as u32 <= 122
    ||| 48 <= c as u32 <= 57
    ||| c as u32 == 43
    ||| c as u32 == 47
    ||| c as u32 == 61
}

/// Relies on base64's `STANDARD` engine: the standard alphabet
/// (`A`-`Z` `a`-`z` `0`-`9` `+` `/`) with `=` padding, four output
/// characters for every three input bytes, a function of the input bytes
/// alone.
#[verifier::external_body]
fn b64_encode(b: &Vec<u8>) -> (r: String)
    ensures
        r@ == base64_std_of(b@),
        r@.len() == 4 * ((b@.len() + 2) / 3),
        forall|i: int| 0 <= i < r@.len() ==> base64_char(#[trigger] r@[i]),
{
    base64::engine::general_purpose::STANDARD.encode(b)
}

/// A decimal digit character.
pub open spec fn is_digit(c: char) -> bool {
    48 <= c as u32 <= 57
}

/// The index after the run of decimal digits starting at `i`.
pub open spec fn digits_end(s: Seq<char>, i: int) -> int
    decreases s.len() - i,
{
    if i < s.len() && is_digit(s[i]) {
        digits_end(s, i + 1)
    } else {
        i
    }
}

/// Where the integer part of a JSON number ends, or a negative result when
/// there is none: an optional minus sign, then either a lone zero or a
/// nonzero digit followed by digits.
pub open spec fn int_part_end(s: Seq<char>) -> int {
    let start: int = if s.len() > 0 && s[0] == '-' {
        1int
    } else {
        0int
    };
    if start < s.len() && s[start] == '0' {
        start + 1
    } else if start < s.len() && is_digit(s[start]) {
        digits_end(s, start)
    } else {
        -1
    }
}

/// Where the fraction part ends when one starts at `i`: a dot must be
/// followed by at least one digit.
pub open spec fn frac_end(s: Seq<char>, i: int) -> int {
    if i < s.len() && s[i] == '.' {
        if digits_end(s, i + 1) > i + 1 {
            digits_end(s, i + 1)
        } else {
            -1
        }
    } else {
        i
    }
}

/// Where the exponent part ends when one starts at `i`: `e` or `E`, an
/// optional sign, then at least one digit.
pub open spec fn exp_end(s: Seq<char>, i: int) -> int {
    if i < s.len() && (s[i] == 'e' || s[i] == 'E') {
        let k: int = if i + 1 < s.len() && (s[i + 1] == '+' || s[i + 1] == '-') {
            i + 2
        } else {
            i + 1
        };
        if digits_end(s, k) > k {
            digits_end(s, k)
        } else {
            -1
        }
    } else {
        i
    }
}

/// The JSON number grammar: integer part, optional fraction, optional
/// exponent, nothing else.
pub open spec fn is_json_number(s: Seq<char>) -> bool {
    let a: int = int_part_end(s);
    if a < 0 {
        false
    } else {
        let b: int = frac_end(s, a);
        if b < 0 {
            false
        } else {
            exp_end(s, b) == s.len()
        }
    }
}

/// A lowercase hexadecimal digit.
pub open spec fn hex_byte(d: nat) -> u8 {
    if d < 10 {
        (48 + d) as u8
    } else {
        (87 + d) as u8
    }
}

/// How one byte of string content is escaped: quote and backslash with a
/// backslash, the named control characters with their short escapes, the
/// remaining control bytes as `\u00XX`, everything else verbatim.
pub open spec fn escape_byte(b: u8) -> Seq<u8> {
    if b == 34 {
        seq![92u8, 34u8]
    } else if b == 92 {
        seq![92u8, 92u8]
    } else if b == 8 {
        seq![92u8, 98u8]
    } else if b == 12 {
        seq![92u8, 102u8]
    } else if b == 10 {
        seq![92u8, 110u8]
    } else if b == 13 {
        seq![92u8, 114u8]
    } else if b == 9 {
        seq![92u8, 116u8]
    } else if b < 32 {
        seq![92u8, 117u8, 48u8, 48u8, hex_byte((b / 16) as nat), hex_byte((b % 16) as nat)]
    } else {
        seq![b]
    }
}

/// The escaped form of string content.
pub open spec fn escape_bytes(s: Seq<u8>) -> Seq<u8>
    decreases s.len(),
{
    if s.len() == 0 {
        Seq::empty()
    } else {
        escape_bytes(s.drop_last()) + escape_byte(s.last())
    }
}

/// A JSON string: quoted, escaped content.
pub open spec fn quoted(s: Seq<u8>) -> Seq<u8> {
    seq![34u8] + escape_bytes(s) + seq![34u8]
}

/// A decimal digit byte.
pub open spec fn digit_byte(d: nat) -> u8 {
    (48 + d) as u8
}

/// The decimal rendering of a number, most significant digit first.
pub open spec fn dec_bytes(n: nat) -> Seq<u8>
    decreases n,
{
    if n < 10 {
        seq![digit_byte(n)]
    } else {
        dec_bytes(n / 10).push(digit_byte(n % 10))
    }
}

/// The decimal rendering of a signed integer.
pub open spec fn int_bytes(i: int) -> Seq<u8> {
    if i < 0 {
        seq![45u8] + dec_bytes((-i) as nat)
    } else {
        dec_bytes(i as nat)
    }
}

/// The rendering of one column value.
pub open spec fn render_value(v: SqlValue) -> Seq<u8> {
    match v {
        SqlValue::Null => seq![110u8, 117u8, 108u8, 108u8],
        SqlValue::Bool(b) => if b {
            seq![116u8, 114u8, 117u8, 101u8]
        } else {
            seq![102u8, 97u8, 108u8, 115u8, 101u8]
        },
        SqlValue::Int(i) => int_bytes(i as int),
        SqlValue::Num(s) => if is_json_number(s@) {
            encode_utf8(s@)
        } else {
            seq![110u8, 117u8, 108u8, 108u8]
        },
        SqlValue::Text(s) => quoted(encode_utf8(s@)),
        SqlValue::Json(s) => if fragment_neutral(encode_utf8(s@)) {
            encode_utf8(s@)
        } else {
            seq![110u8, 117u8, 108u8, 108u8]
        },
        SqlValue::Bytes(b) => seq![34u8] + encode_utf8(base64_std_of(b@)) + seq![34u8],
    }
}

/// The rendering of one column: quoted name, colon, value.
pub open spec fn render_column(c: SqlColumn) -> Seq<u8> {
    quoted(encode_utf8(c.name@)) + seq![58u8] + render_value(c.value)
}

/// Columns joined with commas.
pub open spec fn render_columns(cs: Seq<SqlColumn>) -> Seq<u8>
    decreases cs.len(),
{
    if cs.len() == 0 {
        Seq::empty()
    } else if cs.len() == 1 {
        render_column(cs[0])
    } else {
        render_columns(cs.drop_last()) + seq![44u8] + render_column(cs.last())
    }
}

/// The rendering of one row object.
pub open spec fn render_row(r: SqlRow) -> Seq<u8> {
    seq![123u8] + render_columns(r.columns@) + seq![125u8]
}

/// Rows joined with commas.
pub open spec fn render_rows_inner(rs: Seq<SqlRow>) -> Seq<u8>
    decreases rs.len(),
{
    if rs.len() == 0 {
        Seq::empty()
    } else if rs.len() == 1 {
        render_row(rs[0])
    } else {
        render_rows_inner(rs.drop_last()) + seq![44u8] + render_row(rs.last())
    }
}

/// The rendering of the whole result: a JSON array of row objects.
pub open spec fn render_rows(rs: Seq<SqlRow>) -> Seq<u8> {
    seq![91u8] + render_rows_inner(rs) + seq![93u8]
}

/// Whether this character is a decimal digit.
fn is_digit_exec(c: char) -> (r: bool)
    ensures
        r == is_digit(c),
{
    let u: u32 = c as u32;
    48 <= u && u <= 57
}

/// Scan the run of digits starting at `start`.
fn scan_digits(s: &str, start: usize, n: usize) -> (r: usize)
    requires
        n == s@.len(),
        start <= n,
    ensures
        r as int == digits_end(s@, start as int),
        start <= r <= n,
{
    let mut i: usize = start;
    while i < n
        invariant
            n == s@.len(),
            start <= i <= n,
            digits_end(s@, start as int) == digits_end(s@, i as int),
        decreases n - i,
    {
        let c: char = s.get_char(i);
        if !is_digit_exec(c) {
            proof {
                assert(digits_end(s@, i as int) == i as int);
            }
            return i;
        }
        proof {
            assert(digits_end(s@, i as int) == digits_end(s@, i + 1));
        }
        i = i + 1;
    }
    proof {
        assert(digits_end(s@, i as int) == i as int);
    }
    i
}

/// Verified check of the JSON number grammar.
pub fn is_number_token(s: &str) -> (r: bool)
    ensures
        r == is_json_number(s@),
{
    let n: usize = s.unicode_len();
    let start: usize = if n > 0 && s.get_char(0) == '-' {
        1
    } else {
        0
    };
    let a: usize;
    if start < n && s.get_char(start) == '0' {
        a = start + 1;
    } else if start < n && is_digit_exec(s.get_char(start)) {
        a = scan_digits(s, start, n);
    } else {
        proof {
            assert(int_part_end(s@) == -1);
        }
        return false;
    }
    proof {
        assert(a as int == int_part_end(s@));
    }
    let b: usize;
    if a < n && s.get_char(a) == '.' {
        let j: usize = scan_digits(s, a + 1, n);
        if j > a + 1 {
            b = j;
        } else {
            proof {
                assert(frac_end(s@, a as int) == -1);
            }
            return false;
        }
    } else {
        b = a;
    }
    proof {
        assert(b as int == frac_end(s@, a as int));
    }
    let cend: usize;
    if b < n && (s.get_char(b) == 'e' || s.get_char(b) == 'E') {
        let k: usize = if b + 1 < n && (s.get_char(b + 1) == '+' || s.get_char(b + 1) == '-') {
            b + 2
        } else {
            b + 1
        };
        let j: usize = scan_digits(s, k, n);
        if j > k {
            cend = j;
        } else {
            proof {
                assert(exp_end(s@, b as int) == -1);
            }
            return false;
        }
    } else {
        cend = b;
    }
    proof {
        assert(cend as int == exp_end(s@, b as int));
    }
    cend == n
}

/// Append all bytes of `s` to `out`.
fn push_plain(out: &mut Vec<u8>, s: &Vec<u8>)
    ensures
        final(out)@ == old(out)@ + s@,
{
    let mut i: usize = 0;
    while i < s.len()
        invariant
            i <= s@.len(),
            out@ == old(out)@ + s@.take(i as int),
        decreases s@.len() - i,
    {
        out.push(s[i]);
        proof {
            assert(s@.take(i + 1).drop_last() =~= s@.take(i as int));
            assert(out@ =~= old(out)@ + s@.take(i + 1));
        }
        i = i + 1;
    }
    proof {
        assert(s@.take(s@.len() as int) =~= s@);
    }
}

/// A lowercase hexadecimal digit byte.
fn hex_digit(d: u8) -> (r: u8)
    requires
        d < 16,
    ensures
        r == hex_byte(d as nat),
{
    if d < 10 {
        48 + d
    } else {
        87 + d
    }
}

/// Append the escaped form of `s` to `out`.
fn push_escaped(out: &mut Vec<u8>, s: &Vec<u8>)
    ensures
        final(out)@ == old(out)@ + escape_bytes(s@),
{
    let mut i: usize = 0;
    while i < s.len()
        invariant
            i <= s@.len(),
            out@ == old(out)@ + escape_bytes(s@.take(i as int)),
        decreases s@.len() - i,
    {
        let b: u8 = s[i];
        if b == 34 {
            out.push(92);
            out.push(34);
        } else if b == 92 {
            out.push(92);
            out.push(92);
        } else if b == 8 {
            out.push(92);
            out.push(98);
        } else if b == 12 {
            out.push(92);
            out.push(102);
        } else if b == 10 {
            out.push(92);
            out.push(110);
        } else if b == 13 {
            out.push(92);
            out.push(114);
        } else if b == 9 {
            out.push(92);
            out.push(116);
        } else if b < 32 {
            out.push(92);
            out.push(117);
            out.push(48);
            out.push(48);
            out.push(hex_digit(b / 16));
            out.push(hex_digit(b % 16));
        } else {
            out.push(b);
        }
        proof {
            assert(s@.take(i + 1).drop_last() =~= s@.take(i as int));
            assert(s@.take(i + 1).last() == s@[i as int]);
            assert(out@ =~= old(out)@ + escape_bytes(s@.take(i + 1)));
        }
        i = i + 1;
    }
    proof {
        assert(s@.take(s@.len() as int) =~= s@);
    }
}

/// Append the decimal rendering of `n` to `out`.
fn push_dec_bytes(out: &mut Vec<u8>, n: u64)
    ensures
        final(out)@ == old(out)@ + dec_bytes(n as nat),
    decreases n,
{
    if n < 10 {
        out.push(48 + n as u8);
        proof {
            assert(out@ =~= old(out)@ + dec_bytes(n as nat));
        }
    } else {
        push_dec_bytes(out, n / 10);
        out.push(48 + (n % 10) as u8);
        proof {
            assert(out@ =~= old(out)@ + dec_bytes(n as nat));
        }
    }
}

/// Append the decimal rendering of `i` to `out`.
fn push_int(out: &mut Vec<u8>, i: i64)
    ensures
        final(out)@ == old(out)@ + int_bytes(i as int),
{
    if i < 0 {
        out.push(45);
        let wide: i128 = -(i as i128);
        proof {
            assert(0 < wide < 0x10000000000000000i128);
        }
        let m: u64 = wide as u64;
        push_dec_bytes(out, m);
        proof {
            assert(out@ =~= old(out)@ + int_bytes(i as int));
        }
    } else {
        push_dec_bytes(out, i as u64);
    }
}

/// Append the rendering of one value to `out`; every value returns the
/// byte scanner to its state.
fn push_value(out: &mut Vec<u8>, v: &SqlValue)
    ensures
        final(out)@ == old(out)@ + render_value(*v),
        value_scans(*v),
{
    match v {
        SqlValue::Null => {
            out.push(110);
            out.push(117);
            out.push(108);
            out.push(108);
            proof {
                assert(out@ =~= old(out)@ + render_value(*v));
                lemma_value_run(*v);
            }
        },
        SqlValue::Bool(b) => {
            if *b {
                out.push(116);
                out.push(114);
                out.push(117);
                out.push(101);
            } else {
                out.push(102);
                out.push(97);
                out.push(108);
                out.push(115);
                out.push(101);
            }
            proof {
                assert(out@ =~= old(out)@ + render_value(*v));
                lemma_value_run(*v);
            }
        },
        SqlValue::Int(i) => {
            push_int(out, *i);
            proof {
                lemma_value_run(*v);
            }
        },
        SqlValue::Num(s) => {
            if is_number_token(s.as_str()) {
                let bs: Vec<u8> = s.as_str().as_bytes_vec();
                proof {
                    assert(bs@ == encode_utf8(s@));
                }
                push_plain(out, &bs);
            } else {
                out.push(110);
                out.push(117);
                out.push(108);
                out.push(108);
                proof {
                    assert(out@ =~= old(out)@ + render_value(*v));
                }
            }
            proof {
                lemma_value_run(*v);
            }
        },
        SqlValue::Text(s) => {
            out.push(34);
            let bs: Vec<u8> = s.as_str().as_bytes_vec();
            proof {
                assert(bs@ == encode_utf8(s@));
            }
            push_escaped(out, &bs);
            out.push(34);
            proof {
                assert(out@ =~= old(out)@ + render_value(*v));
                lemma_value_run(*v);
            }
        },
        SqlValue::Json(s) => {
            let bs: Vec<u8> = s.as_str().as_bytes_vec();
            proof {
                assert(bs@ == encode_utf8(s@));
            }
            if check_fragment_neutral(&bs) {
                push_plain(out, &bs);
            } else {
                out.push(110);
                out.push(117);
                out.push(108);
                out.push(108);
                proof {
                    assert(out@ =~= old(out)@ + render_value(*v));
                }
            }
            proof {
                lemma_value_run(*v);
            }
        },
        SqlValue::Bytes(b) => {
            out.push(34);
            let enc: String = b64_encode(b);
            let bs: Vec<u8> = enc.as_str().as_bytes_vec();
            proof {
                assert(bs@ == encode_utf8(base64_std_of(b@)));
            }
            push_plain(out, &bs);
            out.push(34);
            proof {
                assert(out@ =~= old(out)@ + render_value(*v));
                assert(forall|i: int|
                    0 <= i < base64_std_of(b@).len() ==> base64_char(
                        #[trigger] base64_std_of(b@)[i],
                    ));
                lemma_value_run(*v);
            }
        },
    }
}

/// Append the rendering of one column to `out`; every column returns the
/// byte scanner to its state.
fn push_column(out: &mut Vec<u8>, c: &SqlColumn)
    ensures
        final(out)@ == old(out)@ + render_column(*c),
        column_scans(*c),
{
    out.push(34);
    let bs: Vec<u8> = c.name.as_str().as_bytes_vec();
    proof {
        assert(bs@ == encode_utf8(c.name@));
    }
    push_escaped(out, &bs);
    out.push(34);
    out.push(58);
    push_value(out, &c.value);
    proof {
        assert(out@ =~= old(out)@ + render_column(*c));
        lemma_column_run(*c);
    }
}

/// Append the rendering of one row object to `out`; every row returns a
/// depth-one byte scanner to its state.
fn push_row(out: &mut Vec<u8>, r: &SqlRow)
    ensures
        final(out)@ == old(out)@ + render_row(*r),
        row_scans(*r),
{
    out.push(123);
    let ghost base: Seq<u8> = out@;
    let mut i: usize = 0;
    while i < r.columns.len()
        invariant
            i <= r.columns@.len(),
            out@ == base + render_columns(r.columns@.take(i as int)),
            base == old(out)@ + seq![123u8],
            forall|j: int| 0 <= j < i ==> column_scans(#[trigger] r.columns@[j]),
        decreases r.columns@.len() - i,
    {
        if i > 0 {
            out.push(44);
        }
        push_column(out, &r.columns[i]);
        proof {
            let cs: Seq<SqlColumn> = r.columns@;
            assert(cs.take(i + 1).drop_last() =~= cs.take(i as int));
            assert(cs.take(i + 1).last() == cs[i as int]);
            if i == 0 {
                assert(cs.take(1)[0] == cs[0]);
                assert(render_columns(cs.take(1)) == render_column(cs[0]));
                assert(out@ =~= base + render_columns(cs.take(i + 1)));
            } else {
                assert(out@ =~= base + render_columns(cs.take(i + 1)));
            }
        }
        i = i + 1;
    }
    out.push(125);
    proof {
        assert(r.columns@.take(r.columns@.len() as int) =~= r.columns@);
        assert(out@ =~= old(out)@ + render_row(*r));
        lemma_row_run(*r);
    }
}

/// Render the whole result set as the byte sequence of a JSON array of row
/// objects, exactly as [`render_rows`] prescribes. Read by a
/// bracket-and-string-aware byte scanner, the payload is one array at
/// depth one whose top-level comma count is one less than the row count:
/// it parses as a JSON array with exactly one element per row.
pub fn render_rows_json(rows: &Vec<SqlRow>) -> (r: Vec<u8>)
    ensures
        r@ == render_rows(rows@),
        scan(
            (Scan { depth: 0, in_str: false, esc: false, items: 0 }),
            r@,
        ) == (Scan {
            depth: 0,
            in_str: false,
            esc: false,
            items: if rows@.len() == 0 {
                0int
            } else {
                rows@.len() - 1
            },
        }),
{
    let mut out: Vec<u8> = Vec::new();
    out.push(91);
    let ghost base: Seq<u8> = out@;
    let mut i: usize = 0;
    while i < rows.len()
        invariant
            i <= rows@.len(),
            out@ == base + render_rows_inner(rows@.take(i as int)),
            base == seq![91u8],
            forall|j: int| 0 <= j < i ==> row_scans(#[trigger] rows@[j]),
        decreases rows@.len() - i,
    {
        if i > 0 {
            out.push(44);
        }
        push_row(&mut out, &rows[i]);
        proof {
            let rs: Seq<SqlRow> = rows@;
            assert(rs.take(i + 1).drop_last() =~= rs.take(i as int));
            assert(rs.take(i + 1).last() == rs[i as int]);
            if i == 0 {
                assert(rs.take(1)[0] == rs[0]);
                assert(render_rows_inner(rs.take(1)) == render_row(rs[0]));
                assert(out@ =~= base + render_rows_inner(rs.take(i + 1)));
            } else {
                assert(out@ =~= base + render_rows_inner(rs.take(i + 1)));
            }
        }
        i = i + 1;
    }
    out.push(93);
    proof {
        assert(rows@.take(rows@.len() as int) =~= rows@);
        assert(out@ =~= render_rows(rows@));
        lemma_envelope_run(rows@);
    }
    out
}

/// The envelope is always a bracketed array: it opens with `[`, closes with
/// `]`, and an empty result set renders as exactly `[]`.
pub proof fn lemma_rows_envelope(rs: Seq<SqlRow>)
    ensures
        render_rows(rs).len() >= 2,
        render_rows(rs).first() == 91u8,
        render_rows(rs).last() == 93u8,
        rs.len() == 0 ==> render_rows(rs) =~= seq![91u8, 93u8],
{
}

} // verus!
