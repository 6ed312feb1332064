//! Shape of the rendered envelope, read by a small byte scanner.
//!
//! The scanner walks bytes the way a JSON reader does: a quote opens and
//! closes a string, a backslash inside a string escapes the next byte,
//! brackets and braces outside strings change the nesting depth, and a
//! comma at depth one separates the elements of the outermost array. The
//! lemmas here show that every piece the encoder emits drives the scanner
//! back to where it started, which pins down the envelope's element count
//! in [`crate::json::render_rows_json`].

use vstd::prelude::*;
use vstd::utf8::{encode_scalar, encode_utf8};
use crate::json::{
    base64_char, base64_std_of, dec_bytes, digit_byte, digits_end, escape_byte, escape_bytes,
    exp_end, frac_end, hex_byte, int_bytes, int_part_end, is_digit, is_json_number, quoted,
    render_column, render_columns, render_row, render_rows, render_rows_inner, render_value,
    SqlColumn, SqlRow, SqlValue,
};

verus! {

/// The scanner's state: nesting depth, string state, and the count of
/// commas seen at depth one.
pub struct Scan {
    pub depth: int,
    pub in_str: bool,
    pub esc: bool,
    pub items: int,
}

/// Outside a string and not escaping.
pub open spec fn outside_string(s: Scan) -> bool {
    !s.in_str && !s.esc
}

/// Inside a string, not escaping.
pub open spec fn inside_string(s: Scan) -> bool {
    s.in_str && !s.esc
}

/// One byte of input.
pub open spec fn scan_byte(s: Scan, b: u8) -> Scan {
    if s.in_str {
        if s.esc {
            Scan { esc: false, ..s }
        } else if b == 92 {
            Scan { esc: true, ..s }
        } else if b == 34 {
            Scan { in_str: false, ..s }
        } else {
            s
        }
    } else if b == 34 {
        Scan { in_str: true, ..s }
    } else if b == 91 || b == 123 {
        Scan { depth: s.depth + 1, ..s }
    } else if b == 93 || b == 125 {
        Scan { depth: s.depth - 1, ..s }
    } else if b == 44 && s.depth == 1 {
        Scan { items: s.items + 1, ..s }
    } else {
        s
    }
}

/// A whole byte sequence, left to right.
pub open spec fn scan(s: Scan, bs: Seq<u8>) -> Scan
    decreases bs.len(),
{
    if bs.len() == 0 {
        s
    } else {
        scan(scan_byte(s, bs.first()), bs.drop_first())
    }
}

/// Scanning a concatenation scans the parts in order.
pub proof fn lemma_scan_concat(st: Scan, a: Seq<u8>, b: Seq<u8>)
    ensures
        scan(st, a + b) == scan(scan(st, a), b),
    decreases a.len(),
{
    if a.len() == 0 {
        assert(a + b =~= b);
    } else {
        assert((a + b).first() == a.first());
        assert((a + b).drop_first() =~= a.drop_first() + b);
        lemma_scan_concat(scan_byte(st, a.first()), a.drop_first(), b);
    }
}

/// One byte as a sequence.
pub proof fn lemma_scan_one(st: Scan, x: u8)
    ensures
        scan(st, seq![x]) == scan_byte(st, x),
{
    assert(seq![x].drop_first() =~= Seq::<u8>::empty());
    assert(scan(scan_byte(st, x), Seq::<u8>::empty()) == scan_byte(st, x));
}

/// Two bytes as a sequence.
pub proof fn lemma_scan_two(st: Scan, x: u8, y: u8)
    ensures
        scan(st, seq![x, y]) == scan_byte(scan_byte(st, x), y),
{
    assert(seq![x, y].drop_first() =~= seq![y]);
    lemma_scan_one(scan_byte(st, x), y);
}

/// A byte that leaves the scanner alone outside strings: not a quote, not a
/// bracket or brace, not a comma.
pub open spec fn inert_byte(b: u8) -> bool {
    b != 34 && b != 44 && b != 91 && b != 93 && b != 123 && b != 125
}

/// A byte that leaves the scanner alone inside a string: not a quote, not a
/// backslash.
pub open spec fn string_safe_byte(b: u8) -> bool {
    b != 34 && b != 92
}

/// A run of inert bytes outside a string changes nothing.
pub proof fn lemma_inert_run(st: Scan, bs: Seq<u8>)
    requires
        outside_string(st),
        forall|i: int| 0 <= i < bs.len() ==> inert_byte(#[trigger] bs[i]),
    ensures
        scan(st, bs) == st,
    decreases bs.len(),
{
    if bs.len() > 0 {
        assert(inert_byte(bs[0]));
        lemma_inert_run(scan_byte(st, bs.first()), bs.drop_first());
    }
}

/// A run of string-safe bytes inside a string changes nothing.
pub proof fn lemma_string_run(st: Scan, bs: Seq<u8>)
    requires
        inside_string(st),
        forall|i: int| 0 <= i < bs.len() ==> string_safe_byte(#[trigger] bs[i]),
    ensures
        scan(st, bs) == st,
    decreases bs.len(),
{
    if bs.len() > 0 {
        assert(string_safe_byte(bs[0]));
        lemma_string_run(scan_byte(st, bs.first()), bs.drop_first());
    }
}

/// The escaped form of one byte keeps the scanner inside the string.
pub proof fn lemma_escape_byte_run(st: Scan, b: u8)
    requires
        inside_string(st),
    ensures
        scan(st, escape_byte(b)) == st,
{
    if b == 34 || b == 92 || b == 8 || b == 12 || b == 10 || b == 13 || b == 9 {
        let second: u8 = escape_byte(b)[1];
        lemma_scan_two(st, 92, second);
        assert(escape_byte(b) =~= seq![92u8, second]);
    } else if b < 32 {
        let h1: u8 = hex_byte((b / 16) as nat);
        let h2: u8 = hex_byte((b % 16) as nat);
        assert(escape_byte(b) =~= seq![92u8, 117u8] + seq![48u8, 48u8] + seq![h1, h2]);
        lemma_scan_concat(st, seq![92u8, 117u8] + seq![48u8, 48u8], seq![h1, h2]);
        lemma_scan_concat(st, seq![92u8, 117u8], seq![48u8, 48u8]);
        lemma_scan_two(st, 92, 117);
        let st2 = scan_byte(scan_byte(st, 92), 117);
        assert(st2 == st);
        lemma_scan_two(st, 48, 48);
        assert(string_safe_byte(h1));
        assert(string_safe_byte(h2));
        lemma_scan_two(st, h1, h2);
    } else {
        assert(escape_byte(b) =~= seq![b]);
        lemma_scan_one(st, b);
        assert(string_safe_byte(b));
    }
}

/// Escaped content keeps the scanner inside the string, whatever the bytes.
pub proof fn lemma_escape_run(st: Scan, content: Seq<u8>)
    requires
        inside_string(st),
    ensures
        scan(st, escape_bytes(content)) == st,
    decreases content.len(),
{
    if content.len() > 0 {
        lemma_escape_run(st, content.drop_last());
        lemma_scan_concat(st, escape_bytes(content.drop_last()), escape_byte(content.last()));
        lemma_escape_byte_run(st, content.last());
    }
}

/// A quoted, escaped string returns the scanner to its starting state.
pub proof fn lemma_quoted_run(st: Scan, content: Seq<u8>)
    requires
        outside_string(st),
    ensures
        scan(st, quoted(content)) == st,
{
    let opened = scan_byte(st, 34);
    lemma_scan_concat(st, seq![34u8] + escape_bytes(content), seq![34u8]);
    lemma_scan_concat(st, seq![34u8], escape_bytes(content));
    lemma_scan_one(st, 34);
    lemma_escape_run(opened, content);
    lemma_scan_one(opened, 34);
}

/// Decimal renderings hold only digit bytes.
pub proof fn lemma_dec_bytes_digits(n: nat)
    ensures
        forall|i: int| 0 <= i < dec_bytes(n).len() ==> 48 <= #[trigger] dec_bytes(n)[i] <= 57,
    decreases n,
{
    if n >= 10 {
        lemma_dec_bytes_digits(n / 10);
        assert forall|i: int| 0 <= i < dec_bytes(n).len() implies 48 <= #[trigger] dec_bytes(n)[i]
            <= 57 by {
            if i < dec_bytes(n / 10).len() {
                assert(dec_bytes(n)[i] == dec_bytes(n / 10)[i]);
            } else {
                assert(dec_bytes(n)[i] == digit_byte(n % 10));
            }
        }
    }
}

/// An integer token leaves the scanner alone outside strings.
pub proof fn lemma_int_run(st: Scan, i: int)
    requires
        outside_string(st),
    ensures
        scan(st, int_bytes(i)) == st,
{
    if i < 0 {
        lemma_dec_bytes_digits((-i) as nat);
        lemma_scan_concat(st, seq![45u8], dec_bytes((-i) as nat));
        lemma_scan_one(st, 45);
        lemma_inert_run(st, dec_bytes((-i) as nat));
    } else {
        lemma_dec_bytes_digits(i as nat);
        lemma_inert_run(st, dec_bytes(i as nat));
    }
}

/// A character a number token may hold: a digit, a sign, the dot, or the
/// exponent letter.
pub open spec fn number_char(c: char) -> bool {
    ||| is_digit(c)
    ||| c as u32 == 45
    ||| c as u32 == 43
    ||| c as u32 == 46
    ||| c as u32 == 101
    ||| c as u32 == 69
}

/// A sequence of characters below code point 128 encodes byte for byte.
pub proof fn lemma_ascii_encode(s: Seq<char>)
    requires
        forall|i: int| 0 <= i < s.len() ==> ((#[trigger] s[i]) as u32) < 128,
    ensures
        encode_utf8(s).len() == s.len(),
        forall|i: int| 0 <= i < s.len() ==> #[trigger] encode_utf8(s)[i] == (s[i] as u32) as u8,
    decreases s.len(),
{
    if s.len() > 0 {
        let u: u32 = s[0] as u32;
        assert(u < 128);
        assert((u & 0x7F) == u) by (bit_vector)
            requires
                u < 128,
        ;
        assert(encode_scalar(u) =~= seq![u as u8]);
        lemma_ascii_encode(s.drop_first());
        assert(encode_utf8(s) =~= seq![u as u8] + encode_utf8(s.drop_first()));
        assert forall|i: int| 0 <= i < s.len() implies #[trigger] encode_utf8(s)[i] == (
        s[i] as u32) as u8 by {
            if i > 0 {
                assert(s.drop_first()[i - 1] == s[i]);
                assert(encode_utf8(s)[i] == encode_utf8(s.drop_first())[i - 1]);
            }
        }
    }
}

/// A digit run spans digits and stays within the sequence.
pub proof fn lemma_digits_span(s: Seq<char>, i: int)
    requires
        0 <= i <= s.len(),
    ensures
        i <= digits_end(s, i) <= s.len(),
        forall|j: int| i <= j < digits_end(s, i) ==> is_digit(#[trigger] s[j]),
    decreases s.len() - i,
{
    if i < s.len() && is_digit(s[i]) {
        lemma_digits_span(s, i + 1);
    }
}

/// A token accepted by the number grammar holds number characters only.
pub proof fn lemma_number_chars(s: Seq<char>)
    requires
        is_json_number(s),
    ensures
        forall|i: int| 0 <= i < s.len() ==> number_char(#[trigger] s[i]),
{
    let start: int = if s.len() > 0 && s[0] == '-' {
        1int
    } else {
        0int
    };
    let a: int = int_part_end(s);
    let b: int = frac_end(s, a);
    let c: int = exp_end(s, b);
    lemma_digits_span(s, start);
    assert(start <= a <= s.len());
    if a < s.len() && s[a] == '.' {
        lemma_digits_span(s, a + 1);
    }
    let k: int = if b + 1 < s.len() && (s[b + 1] == '+' || s[b + 1] == '-') {
        b + 2
    } else {
        b + 1
    };
    if b < s.len() && (s[b] == 'e' || s[b] == 'E') {
        lemma_digits_span(s, k);
    }
    assert forall|i: int| 0 <= i < s.len() implies number_char(#[trigger] s[i]) by {
        if i < start {
            assert(s[i] == '-');
        } else if i < a {
            if start < s.len() && s[start] == '0' {
                assert(i == start && s[i] == '0');
            } else {
                assert(is_digit(s[i]));
            }
        } else if i < b {
            if i == a {
                assert(s[i] == '.');
            } else {
                assert(is_digit(s[i]));
            }
        } else {
            if i == b {
                assert(s[i] == 'e' || s[i] == 'E');
            } else if i < k {
                assert(s[i] == '+' || s[i] == '-');
            } else {
                assert(is_digit(s[i]));
            }
        }
    }
}

/// A valid number token, encoded, leaves the scanner alone outside strings.
pub proof fn lemma_num_token_run(st: Scan, s: Seq<char>)
    requires
        outside_string(st),
        is_json_number(s),
    ensures
        scan(st, encode_utf8(s)) == st,
{
    lemma_number_chars(s);
    assert forall|i: int| 0 <= i < s.len() implies ((#[trigger] s[i]) as u32) < 128 by {
        assert(number_char(s[i]));
    }
    lemma_ascii_encode(s);
    assert forall|i: int| 0 <= i < encode_utf8(s).len() implies inert_byte(
        #[trigger] encode_utf8(s)[i],
    ) by {
        assert(number_char(s[i]));
        assert(encode_utf8(s)[i] == (s[i] as u32) as u8);
    }
    lemma_inert_run(st, encode_utf8(s));
}

/// A quoted base64 rendering returns the scanner to its starting state: the
/// alphabet holds neither quotes nor backslashes.
pub proof fn lemma_b64_quoted_run(st: Scan, cs: Seq<char>)
    requires
        outside_string(st),
        forall|i: int| 0 <= i < cs.len() ==> base64_char(#[trigger] cs[i]),
    ensures
        scan(st, seq![34u8] + encode_utf8(cs) + seq![34u8]) == st,
{
    assert forall|i: int| 0 <= i < cs.len() implies ((#[trigger] cs[i]) as u32) < 128 by {
        assert(base64_char(cs[i]));
    }
    lemma_ascii_encode(cs);
    let opened = scan_byte(st, 34);
    lemma_scan_concat(st, seq![34u8] + encode_utf8(cs), seq![34u8]);
    lemma_scan_concat(st, seq![34u8], encode_utf8(cs));
    lemma_scan_one(st, 34);
    assert forall|i: int| 0 <= i < encode_utf8(cs).len() implies string_safe_byte(
        #[trigger] encode_utf8(cs)[i],
    ) by {
        assert(base64_char(cs[i]));
        assert(encode_utf8(cs)[i] == (cs[i] as u32) as u8);
    }
    lemma_string_run(opened, encode_utf8(cs));
    lemma_scan_one(opened, 34);
}

/// An embedded fragment, simulated from a relative starting state: the
/// simulation never closes below its own ground depth, never places a
/// comma at its ground depth outside a string, and ends back at ground
/// depth outside any string. Compactly rendered JSON values are of this
/// shape: balanced structures with properly escaped strings, commas only
/// inside them.
pub open spec fn neutral_from(s: Scan, bs: Seq<u8>) -> bool
    decreases bs.len(),
{
    if bs.len() == 0 {
        s.depth == 0 && !s.in_str && !s.esc
    } else {
        let b = bs.first();
        &&& !(!s.in_str && (b == 93 || b == 125) && s.depth == 0)
        &&& !(!s.in_str && b == 44 && s.depth == 0)
        &&& neutral_from(scan_byte(s, b), bs.drop_first())
    }
}

/// A fragment the scanner may pass through verbatim.
pub open spec fn fragment_neutral(bs: Seq<u8>) -> bool {
    neutral_from(Scan { depth: 0, in_str: false, esc: false, items: 0 }, bs)
}

/// A neutral fragment returns every strictly deeper scanner to its state:
/// the relative simulation mirrors the absolute run at a constant depth
/// offset, and its ground-depth guards keep the absolute run away from
/// depth one.
pub proof fn lemma_neutral_shift(s: Scan, st: Scan, bs: Seq<u8>)
    requires
        neutral_from(s, bs),
        s.depth >= 0,
        st.in_str == s.in_str,
        st.esc == s.esc,
        st.depth >= s.depth + 1,
    ensures
        scan(st, bs) == (Scan {
            depth: st.depth - s.depth,
            in_str: false,
            esc: false,
            items: st.items,
        }),
    decreases bs.len(),
{
    if bs.len() > 0 {
        let b = bs.first();
        let s1 = scan_byte(s, b);
        let st1 = scan_byte(st, b);
        assert(st1.in_str == s1.in_str && st1.esc == s1.esc);
        assert(st1.depth - s1.depth == st.depth - s.depth);
        assert(st1.items == st.items);
        lemma_neutral_shift(s1, st1, bs.drop_first());
        assert(scan(st, bs) == scan(st1, bs.drop_first()));
    }
}

/// Verified check of [`fragment_neutral`].
pub fn check_fragment_neutral(bs: &Vec<u8>) -> (r: bool)
    ensures
        r == fragment_neutral(bs@),
{
    let ghost start: Scan = Scan { depth: 0, in_str: false, esc: false, items: 0 };
    let ghost mut st: Scan = start;
    let mut depth: usize = 0;
    let mut in_str: bool = false;
    let mut esc: bool = false;
    let mut i: usize = 0;
    proof {
        assert(bs@.skip(0) =~= bs@);
    }
    while i < bs.len()
        invariant
            i <= bs@.len(),
            depth <= i,
            st.depth == depth as int,
            st.in_str == in_str,
            st.esc == esc,
            fragment_neutral(bs@) == neutral_from(st, bs@.skip(i as int)),
        decreases bs@.len() - i,
    {
        let b: u8 = bs[i];
        proof {
            assert(bs@.skip(i as int).first() == bs@[i as int]);
            assert(bs@.skip(i as int).drop_first() =~= bs@.skip(i + 1));
        }
        if in_str {
            if esc {
                esc = false;
            } else if b == 92 {
                esc = true;
            } else if b == 34 {
                in_str = false;
            }
        } else {
            if b == 34 {
                in_str = true;
            } else if b == 91 || b == 123 {
                depth = depth + 1;
            } else if b == 93 || b == 125 {
                if depth == 0 {
                    proof {
                        assert(!neutral_from(st, bs@.skip(i as int)));
                    }
                    return false;
                }
                depth = depth - 1;
            } else if b == 44 && depth == 0 {
                proof {
                    assert(!neutral_from(st, bs@.skip(i as int)));
                }
                return false;
            }
        }
        proof {
            st = scan_byte(st, b);
        }
        i = i + 1;
    }
    proof {
        assert(bs@.skip(bs@.len() as int) =~= Seq::<u8>::empty());
        assert(neutral_from(st, Seq::<u8>::empty()) == (st.depth == 0 && !st.in_str && !st.esc));
    }
    depth == 0 && !in_str && !esc
}

/// A rendered value returns any scanner at depth one or deeper to its
/// starting state: it is one token, one quoted string, one quoted base64
/// string, or one neutral fragment.
pub open spec fn value_scans(v: SqlValue) -> bool {
    forall|st: Scan|
        outside_string(st) && st.depth >= 1 ==> #[trigger] scan(st, render_value(v)) == st
}

/// As [`value_scans`], for a whole named column.
pub open spec fn column_scans(c: SqlColumn) -> bool {
    forall|st: Scan|
        outside_string(st) && st.depth >= 1 ==> #[trigger] scan(st, render_column(c)) == st
}

/// A rendered row object returns a depth-one scanner to its starting state.
pub open spec fn row_scans(r: SqlRow) -> bool {
    forall|st: Scan|
        outside_string(st) && st.depth == 1 ==> #[trigger] scan(st, render_row(r)) == st
}

/// Every value scans back to its starting state at depth one or deeper;
/// for byte-array values this rests on the base64 alphabet, and for
/// embedded JSON on the neutrality gate of the rendering.
pub proof fn lemma_value_run(v: SqlValue)
    requires
        v matches SqlValue::Bytes(b) ==> forall|i: int|
            0 <= i < base64_std_of(b@).len() ==> base64_char(#[trigger] base64_std_of(b@)[i]),
    ensures
        value_scans(v),
{
    assert forall|st: Scan| outside_string(st) && st.depth >= 1 implies #[trigger] scan(
        st,
        render_value(v),
    ) == st by {
        match v {
            SqlValue::Null => {
                lemma_inert_run(st, seq![110u8, 117u8, 108u8, 108u8]);
            },
            SqlValue::Bool(t) => {
                if t {
                    lemma_inert_run(st, seq![116u8, 114u8, 117u8, 101u8]);
                } else {
                    lemma_inert_run(st, seq![102u8, 97u8, 108u8, 115u8, 101u8]);
                }
            },
            SqlValue::Int(n) => {
                lemma_int_run(st, n as int);
            },
            SqlValue::Num(s) => {
                if is_json_number(s@) {
                    lemma_num_token_run(st, s@);
                } else {
                    lemma_inert_run(st, seq![110u8, 117u8, 108u8, 108u8]);
                }
            },
            SqlValue::Text(s) => {
                lemma_quoted_run(st, encode_utf8(s@));
            },
            SqlValue::Json(s) => {
                if fragment_neutral(encode_utf8(s@)) {
                    lemma_neutral_shift(
                        Scan { depth: 0, in_str: false, esc: false, items: 0 },
                        st,
                        encode_utf8(s@),
                    );
                } else {
                    lemma_inert_run(st, seq![110u8, 117u8, 108u8, 108u8]);
                }
            },
            SqlValue::Bytes(b) => {
                lemma_b64_quoted_run(st, base64_std_of(b@));
            },
        }
    }
}

/// A column whose value scans back also scans back as a whole: its quoted
/// name, the colon, and the value each return the scanner to its state.
pub proof fn lemma_column_run(c: SqlColumn)
    requires
        value_scans(c.value),
    ensures
        column_scans(c),
{
    assert forall|st: Scan| outside_string(st) && st.depth >= 1 implies #[trigger] scan(
        st,
        render_column(c),
    ) == st by {
        lemma_scan_concat(st, quoted(encode_utf8(c.name@)) + seq![58u8], render_value(c.value));
        lemma_scan_concat(st, quoted(encode_utf8(c.name@)), seq![58u8]);
        lemma_quoted_run(st, encode_utf8(c.name@));
        lemma_scan_one(st, 58);
    }
}

/// Joined columns return any scanner at depth two or deeper to its state:
/// the separating commas are never at depth one.
pub proof fn lemma_columns_run(cs: Seq<SqlColumn>)
    requires
        forall|j: int| 0 <= j < cs.len() ==> column_scans(#[trigger] cs[j]),
    ensures
        forall|st: Scan|
            outside_string(st) && st.depth >= 2 ==> #[trigger] scan(st, render_columns(cs)) == st,
    decreases cs.len(),
{
    assert forall|st: Scan| outside_string(st) && st.depth >= 2 implies #[trigger] scan(
        st,
        render_columns(cs),
    ) == st by {
        if cs.len() == 0 {
        } else if cs.len() == 1 {
            assert(column_scans(cs[0]));
        } else {
            lemma_columns_run(cs.drop_last());
            lemma_scan_concat(st, render_columns(cs.drop_last()) + seq![44u8], render_column(
                cs.last(),
            ));
            lemma_scan_concat(st, render_columns(cs.drop_last()), seq![44u8]);
            lemma_scan_one(st, 44);
            assert(column_scans(cs.last()));
        }
    }
}

/// A row object returns a depth-one scanner to its state: the brace lifts
/// the depth to two, where the columns and their commas change nothing.
pub proof fn lemma_row_run(r: SqlRow)
    requires
        forall|j: int| 0 <= j < r.columns@.len() ==> column_scans(#[trigger] r.columns@[j]),
    ensures
        row_scans(r),
{
    lemma_columns_run(r.columns@);
    assert forall|st: Scan| outside_string(st) && st.depth == 1 implies #[trigger] scan(
        st,
        render_row(r),
    ) == st by {
        let inside = scan_byte(st, 123);
        lemma_scan_concat(st, seq![123u8] + render_columns(r.columns@), seq![125u8]);
        lemma_scan_concat(st, seq![123u8], render_columns(r.columns@));
        lemma_scan_one(st, 123);
        lemma_scan_one(inside, 125);
    }
}

/// Joined rows at depth one: each row returns the scanner to its state, and
/// each separating comma counts one element boundary.
pub proof fn lemma_rows_run(rs: Seq<SqlRow>)
    requires
        forall|i: int| 0 <= i < rs.len() ==> row_scans(#[trigger] rs[i]),
    ensures
        forall|st: Scan|
            outside_string(st) && st.depth == 1 ==> #[trigger] scan(st, render_rows_inner(rs)) == (
            Scan {
                items: st.items + if rs.len() == 0 {
                    0int
                } else {
                    rs.len() - 1
                },
                ..st
            }),
    decreases rs.len(),
{
    assert forall|st: Scan| outside_string(st) && st.depth == 1 implies #[trigger] scan(
        st,
        render_rows_inner(rs),
    ) == (Scan {
        items: st.items + if rs.len() == 0 {
            0int
        } else {
            rs.len() - 1
        },
        ..st
    }) by {
        if rs.len() == 0 {
            assert(scan(st, render_rows_inner(rs)) == st);
        } else if rs.len() == 1 {
            assert(row_scans(rs[0]));
        } else {
            lemma_rows_run(rs.drop_last());
            lemma_scan_concat(st, render_rows_inner(rs.drop_last()) + seq![44u8], render_row(
                rs.last(),
            ));
            lemma_scan_concat(st, render_rows_inner(rs.drop_last()), seq![44u8]);
            let mid = Scan { items: st.items + (rs.len() - 2), ..st };
            lemma_scan_one(mid, 44);
            assert(row_scans(rs.last()));
        }
    }
}

/// Read from a fresh scanner, the whole envelope is one array at depth one
/// whose top-level comma count is one less than the row count (and zero for
/// the empty result): every row is one element.
pub proof fn lemma_envelope_run(rs: Seq<SqlRow>)
    requires
        forall|i: int| 0 <= i < rs.len() ==> row_scans(#[trigger] rs[i]),
    ensures
        scan(Scan { depth: 0, in_str: false, esc: false, items: 0 }, render_rows(rs)) == (Scan {
            depth: 0,
            in_str: false,
            esc: false,
            items: if rs.len() == 0 {
                0int
            } else {
                rs.len() - 1
            },
        }),
{
    let init = Scan { depth: 0, in_str: false, esc: false, items: 0 };
    let at_top = scan_byte(init, 91);
    lemma_rows_run(rs);
    lemma_scan_concat(init, seq![91u8] + render_rows_inner(rs), seq![93u8]);
    lemma_scan_concat(init, seq![91u8], render_rows_inner(rs));
    lemma_scan_one(init, 91);
    let after = Scan {
        items: if rs.len() == 0 {
            0int
        } else {
            rs.len() - 1
        },
        ..at_top
    };
    lemma_scan_one(after, 93);
}

} // verus!
