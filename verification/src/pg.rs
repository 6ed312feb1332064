//! Conversion of relational rows to the library's row model.
//!
//! A fetched row is opaque, so what it holds is given names: one spec
//! function per family of cell reads, each a function of the row alone
//! (the row carries its raw bytes and column metadata, and every read
//! parses those deterministically). The trusted accessors below apply the
//! names, and the verified conversion is pinned to them exactly: every
//! produced column carries the named column name, in driver order, and the
//! value the encoding table of the service prescribes for the named cell
//! at the column's declared type. Float columns are carried as
//! pre-rendered number tokens, since the library holds no floating point;
//! the JSON encoder admits them only through its verified number grammar.

use vstd::prelude::*;
use crate::json::{SqlColumn, SqlRow, SqlValue};

verus! {

/// A fetched relational row, declared so it can cross the library's
/// signatures; its contents are reached only through the named accessors
/// below.
#[verifier::external_type_specification]
#[verifier::external_body]
pub struct ExRow(tokio_postgres::Row);

/// The number of columns of the row.
pub uninterp spec fn row_width_of(r: tokio_postgres::Row) -> nat;

/// The column names of the row, in driver order.
pub uninterp spec fn row_names_of(r: tokio_postgres::Row) -> Seq<Seq<char>>;

/// The declared-type OIDs of the row's columns, in driver order.
pub uninterp spec fn row_oids_of(r: tokio_postgres::Row) -> Seq<u32>;

/// Each cell read as a boolean (`None` when null or not readable so).
pub uninterp spec fn row_bools_of(r: tokio_postgres::Row) -> Seq<Option<bool>>;

/// Each cell read as a 16-bit integer.
pub uninterp spec fn row_i16s_of(r: tokio_postgres::Row) -> Seq<Option<i16>>;

/// Each cell read as a 32-bit integer.
pub uninterp spec fn row_i32s_of(r: tokio_postgres::Row) -> Seq<Option<i32>>;

/// Each cell read as a 64-bit integer.
pub uninterp spec fn row_i64s_of(r: tokio_postgres::Row) -> Seq<Option<i64>>;

/// Each cell read as text.
pub uninterp spec fn row_texts_of(r: tokio_postgres::Row) -> Seq<Option<Seq<char>>>;

/// Each cell read as a UUID and rendered in canonical dashed form.
pub uninterp spec fn row_uuid_texts_of(r: tokio_postgres::Row) -> Seq<Option<Seq<char>>>;

/// Each cell read as an embedded JSON value and rendered compactly.
pub uninterp spec fn row_json_texts_of(r: tokio_postgres::Row) -> Seq<Option<Seq<char>>>;

/// Each cell read as a byte array.
pub uninterp spec fn row_bytes_of(r: tokio_postgres::Row) -> Seq<Option<Seq<u8>>>;

/// The view of an optional text.
pub open spec fn view_opt_str(o: Option<String>) -> Option<Seq<char>> {
    match o {
        Some(s) => Some(s@),
        None => None,
    }
}

/// The view of an optional byte vector.
pub open spec fn view_opt_bytes(o: Option<Vec<u8>>) -> Option<Seq<u8>> {
    match o {
        Some(b) => Some(b@),
        None => None,
    }
}

/// The families of declared column types the encoding table distinguishes.
pub enum ColKind {
    Bool,
    Int2,
    Int4,
    Int8,
    Float4,
    Float8,
    Text,
    Uuid,
    Json,
    Bytea,
    Other,
}

/// The type family of a declared-type OID: boolean 16, bytea 17, name 19,
/// int8 20, int2 21, int4 23, text 25, json 114, float4 700, float8 701,
/// char 1042, varchar 1043, uuid 2950, jsonb 3802.
pub open spec fn spec_kind_of_oid(oid: u32) -> ColKind {
    if oid == 16 {
        ColKind::Bool
    } else if oid == 21 {
        ColKind::Int2
    } else if oid == 23 {
        ColKind::Int4
    } else if oid == 20 {
        ColKind::Int8
    } else if oid == 700 {
        ColKind::Float4
    } else if oid == 701 {
        ColKind::Float8
    } else if oid == 25 || oid == 1043 || oid == 1042 || oid == 19 {
        ColKind::Text
    } else if oid == 2950 {
        ColKind::Uuid
    } else if oid == 114 || oid == 3802 {
        ColKind::Json
    } else if oid == 17 {
        ColKind::Bytea
    } else {
        ColKind::Other
    }
}

/// Verified dispatch from a declared-type OID to its type family.
pub fn kind_of_oid(oid: u32) -> (k: ColKind)
    ensures
        k == spec_kind_of_oid(oid),
{
    if oid == 16 {
        ColKind::Bool
    } else if oid == 21 {
        ColKind::Int2
    } else if oid == 23 {
        ColKind::Int4
    } else if oid == 20 {
        ColKind::Int8
    } else if oid == 700 {
        ColKind::Float4
    } else if oid == 701 {
        ColKind::Float8
    } else if oid == 25 || oid == 1043 || oid == 1042 || oid == 19 {
        ColKind::Text
    } else if oid == 2950 {
        ColKind::Uuid
    } else if oid == 114 || oid == 3802 {
        ColKind::Json
    } else if oid == 17 {
        ColKind::Bytea
    } else {
        ColKind::Other
    }
}

/// Relies on `tokio_postgres::Row::len`: the number of columns; the cell
/// names above all range over exactly the row's columns.
#[verifier::external_body]
fn row_width(r: &tokio_postgres::Row) -> (w: usize)
    ensures
        w as nat == row_width_of(*r),
        row_names_of(*r).len() == w as nat,
        row_oids_of(*r).len() == w as nat,
        row_bools_of(*r).len() == w as nat,
        row_i16s_of(*r).len() == w as nat,
        row_i32s_of(*r).len() == w as nat,
        row_i64s_of(*r).len() == w as nat,
        row_texts_of(*r).len() == w as nat,
        row_uuid_texts_of(*r).len() == w as nat,
        row_json_texts_of(*r).len() == w as nat,
        row_bytes_of(*r).len() == w as nat,
{
    r.len()
}

/// Relies on `Row::columns` and `Column::name`: the name of column `i`.
#[verifier::external_body]
fn column_name(r: &tokio_postgres::Row, i: usize) -> (name: String)
    requires
        (i as nat) < row_width_of(*r),
    ensures
        name@ == row_names_of(*r)[i as int],
{
    r.columns()[i].name().to_string()
}

/// Relies on `Row::columns` and `Column::type_`: the declared-type OID of
/// column `i`.
#[verifier::external_body]
fn column_oid(r: &tokio_postgres::Row, i: usize) -> (oid: u32)
    requires
        (i as nat) < row_width_of(*r),
    ensures
        oid == row_oids_of(*r)[i as int],
{
    r.columns()[i].type_().oid()
}

/// Relies on `Row::try_get` at `bool`: the boolean value of column `i`, or
/// nothing when it is null or cannot be read so.
#[verifier::external_body]
fn column_bool(r: &tokio_postgres::Row, i: usize) -> (b: Option<bool>)
    requires
        (i as nat) < row_width_of(*r),
    ensures
        b == row_bools_of(*r)[i as int],
{
    r.try_get::<usize, Option<bool>>(i).ok().flatten()
}

/// Relies on `Row::try_get` at `i16`.
#[verifier::external_body]
fn column_i16(r: &tokio_postgres::Row, i: usize) -> (n: Option<i16>)
    requires
        (i as nat) < row_width_of(*r),
    ensures
        n == row_i16s_of(*r)[i as int],
{
    r.try_get::<usize, Option<i16>>(i).ok().flatten()
}

/// Relies on `Row::try_get` at `i32`.
#[verifier::external_body]
fn column_i32(r: &tokio_postgres::Row, i: usize) -> (n: Option<i32>)
    requires
        (i as nat) < row_width_of(*r),
    ensures
        n == row_i32s_of(*r)[i as int],
{
    r.try_get::<usize, Option<i32>>(i).ok().flatten()
}

/// Relies on `Row::try_get` at `i64`.
#[verifier::external_body]
fn column_i64(r: &tokio_postgres::Row, i: usize) -> (n: Option<i64>)
    requires
        (i as nat) < row_width_of(*r),
    ensures
        n == row_i64s_of(*r)[i as int],
{
    r.try_get::<usize, Option<i64>>(i).ok().flatten()
}

/// Relies on `Row::try_get` at `String`: the text value of column `i`; also
/// the fallback read for unrecognized declared types.
#[verifier::external_body]
fn column_text(r: &tokio_postgres::Row, i: usize) -> (t: Option<String>)
    requires
        (i as nat) < row_width_of(*r),
    ensures
        view_opt_str(t) == row_texts_of(*r)[i as int],
{
    r.try_get::<usize, Option<String>>(i).ok().flatten()
}

/// Relies on `Row::try_get` at `uuid::Uuid` and on its canonical dashed
/// rendering.
#[verifier::external_body]
fn column_uuid_text(r: &tokio_postgres::Row, i: usize) -> (t: Option<String>)
    requires
        (i as nat) < row_width_of(*r),
    ensures
        view_opt_str(t) == row_uuid_texts_of(*r)[i as int],
{
    r.try_get::<usize, Option<uuid::Uuid>>(i).ok().flatten().map(|u| u.to_string())
}

/// Relies on `Row::try_get` at `serde_json::Value` and on its compact JSON
/// rendering: the embedded JSON value of a json/jsonb column, as text.
#[verifier::external_body]
fn column_json_text(r: &tokio_postgres::Row, i: usize) -> (t: Option<String>)
    requires
        (i as nat) < row_width_of(*r),
    ensures
        view_opt_str(t) == row_json_texts_of(*r)[i as int],
{
    r.try_get::<usize, Option<serde_json::Value>>(i).ok().flatten().map(|v| v.to_string())
}

/// Relies on `Row::try_get` at `Vec<u8>`: the byte-array value of column `i`.
#[verifier::external_body]
fn column_bytes(r: &tokio_postgres::Row, i: usize) -> (b: Option<Vec<u8>>)
    requires
        (i as nat) < row_width_of(*r),
    ensures
        view_opt_bytes(b) == row_bytes_of(*r)[i as int],
{
    r.try_get::<usize, Option<Vec<u8>>>(i).ok().flatten()
}

/// The encoding table of the service, per declared-type family: the model
/// value column `i` of row `r` must carry. Booleans and integers are
/// themselves, floats are the shell's pre-rendered token (or null when the
/// cell is null or not finite), text-family and uuid cells are text,
/// json/jsonb cells carry the embedded value's text, byte arrays their
/// bytes, unrecognized types the text fallback; every null or unreadable
/// cell is null.
pub open spec fn cell_matches(
    r: tokio_postgres::Row,
    i: int,
    kind: ColKind,
    float_text: Option<Seq<char>>,
    v: SqlValue,
) -> bool {
    match kind {
        ColKind::Bool => match row_bools_of(r)[i] {
            Some(b) => v == SqlValue::Bool(b),
            None => v is Null,
        },
        ColKind::Int2 => match row_i16s_of(r)[i] {
            Some(n) => v == SqlValue::Int(n as i64),
            None => v is Null,
        },
        ColKind::Int4 => match row_i32s_of(r)[i] {
            Some(n) => v == SqlValue::Int(n as i64),
            None => v is Null,
        },
        ColKind::Int8 => match row_i64s_of(r)[i] {
            Some(n) => v == SqlValue::Int(n),
            None => v is Null,
        },
        ColKind::Float4 => match float_text {
            Some(cs) => v matches SqlValue::Num(s) && s@ == cs,
            None => v is Null,
        },
        ColKind::Float8 => match float_text {
            Some(cs) => v matches SqlValue::Num(s) && s@ == cs,
            None => v is Null,
        },
        ColKind::Text => match row_texts_of(r)[i] {
            Some(cs) => v matches SqlValue::Text(s) && s@ == cs,
            None => v is Null,
        },
        ColKind::Uuid => match row_uuid_texts_of(r)[i] {
            Some(cs) => v matches SqlValue::Text(s) && s@ == cs,
            None => v is Null,
        },
        ColKind::Json => match row_json_texts_of(r)[i] {
            Some(cs) => v matches SqlValue::Json(s) && s@ == cs,
            None => v is Null,
        },
        ColKind::Bytea => match row_bytes_of(r)[i] {
            Some(bs) => v matches SqlValue::Bytes(b) && b@ == bs,
            None => v is Null,
        },
        ColKind::Other => match row_texts_of(r)[i] {
            Some(cs) => v matches SqlValue::Text(s) && s@ == cs,
            None => v is Null,
        },
    }
}

/// The shell's float token for column `i`, if it supplied one.
pub open spec fn float_at(fts: Seq<Option<String>>, i: int) -> Option<Seq<char>> {
    if 0 <= i < fts.len() {
        view_opt_str(fts[i])
    } else {
        None
    }
}

/// What the model of one row must be: one column per driver column, in
/// driver order, named as the driver names it, with the value the encoding
/// table prescribes for its declared type.
pub open spec fn row_model_matches(
    r: tokio_postgres::Row,
    fts: Seq<Option<String>>,
    m: SqlRow,
) -> bool {
    &&& m.columns@.len() == row_width_of(r)
    &&& forall|i: int|
        0 <= i < row_width_of(r) ==> {
            &&& (#[trigger] m.columns@[i]).name@ == row_names_of(r)[i]
            &&& cell_matches(
                r,
                i,
                spec_kind_of_oid(row_oids_of(r)[i]),
                float_at(fts, i),
                m.columns@[i].value,
            )
        }
}

/// Read one cell as a model value, per the encoding table.
fn column_value(
    r: &tokio_postgres::Row,
    i: usize,
    kind: ColKind,
    float_text: Option<String>,
) -> (v: SqlValue)
    requires
        (i as nat) < row_width_of(*r),
    ensures
        cell_matches(*r, i as int, kind, view_opt_str(float_text), v),
{
    match kind {
        ColKind::Bool => match column_bool(r, i) {
            Some(b) => SqlValue::Bool(b),
            None => SqlValue::Null,
        },
        ColKind::Int2 => match column_i16(r, i) {
            Some(n) => SqlValue::Int(n as i64),
            None => SqlValue::Null,
        },
        ColKind::Int4 => match column_i32(r, i) {
            Some(n) => SqlValue::Int(n as i64),
            None => SqlValue::Null,
        },
        ColKind::Int8 => match column_i64(r, i) {
            Some(n) => SqlValue::Int(n),
            None => SqlValue::Null,
        },
        ColKind::Float4 => match float_text {
            Some(s) => SqlValue::Num(s),
            None => SqlValue::Null,
        },
        ColKind::Float8 => match float_text {
            Some(s) => SqlValue::Num(s),
            None => SqlValue::Null,
        },
        ColKind::Text => match column_text(r, i) {
            Some(s) => SqlValue::Text(s),
            None => SqlValue::Null,
        },
        ColKind::Uuid => match column_uuid_text(r, i) {
            Some(s) => SqlValue::Text(s),
            None => SqlValue::Null,
        },
        ColKind::Json => match column_json_text(r, i) {
            Some(s) => SqlValue::Json(s),
            None => SqlValue::Null,
        },
        ColKind::Bytea => match column_bytes(r, i) {
            Some(b) => SqlValue::Bytes(b),
            None => SqlValue::Null,
        },
        ColKind::Other => match column_text(r, i) {
            Some(s) => SqlValue::Text(s),
            None => SqlValue::Null,
        },
    }
}

/// Read one fetched row into the row model, column by column in the order
/// the driver reports: exactly as [`row_model_matches`] prescribes.
/// `float_texts` carries the shell's rendering of each float column of this
/// row (`None` at every other index and for null or non-finite floats); a
/// missing entry reads as a null column.
pub fn row_to_model(r: &tokio_postgres::Row, float_texts: &Vec<Option<String>>) -> (m: SqlRow)
    ensures
        row_model_matches(*r, float_texts@, m),
{
    let width: usize = row_width(r);
    let mut columns: Vec<SqlColumn> = Vec::new();
    let mut i: usize = 0;
    while i < width
        invariant
            width as nat == row_width_of(*r),
            i <= width,
            columns@.len() == i as nat,
            forall|j: int|
                0 <= j < i ==> {
                    &&& (#[trigger] columns@[j]).name@ == row_names_of(*r)[j]
                    &&& cell_matches(
                        *r,
                        j,
                        spec_kind_of_oid(row_oids_of(*r)[j]),
                        float_at(float_texts@, j),
                        columns@[j].value,
                    )
                },
        decreases width - i,
    {
        let name: String = column_name(r, i);
        let oid: u32 = column_oid(r, i);
        let kind: ColKind = kind_of_oid(oid);
        let float_text: Option<String> = if i < float_texts.len() {
            match &float_texts[i] {
                Some(s) => Some(s.clone()),
                None => None,
            }
        } else {
            None
        };
        proof {
            assert(view_opt_str(float_text) == float_at(float_texts@, i as int));
        }
        let value: SqlValue = column_value(r, i, kind, float_text);
        columns.push(SqlColumn { name, value });
        i = i + 1;
    }
    SqlRow { columns }
}

/// The shell's float tokens for row `k`, if it supplied a row entry.
pub open spec fn row_floats_at(ts: Seq<Vec<Option<String>>>, k: int) -> Seq<Option<String>> {
    if 0 <= k < ts.len() {
        ts[k]@
    } else {
        Seq::empty()
    }
}

/// Read a whole fetched result set into the row model: one model row per
/// fetched row, each as [`row_model_matches`] prescribes. `float_texts`
/// holds one entry per row, as in [`row_to_model`].
pub fn rows_to_model(
    rows: &Vec<tokio_postgres::Row>,
    float_texts: &Vec<Vec<Option<String>>>,
) -> (out: Vec<SqlRow>)
    ensures
        out@.len() == rows@.len(),
        forall|k: int|
            0 <= k < rows@.len() ==> row_model_matches(
                rows@[k],
                row_floats_at(float_texts@, k),
                #[trigger] out@[k],
            ),
{
    let empty: Vec<Option<String>> = Vec::new();
    let mut out: Vec<SqlRow> = Vec::new();
    let mut i: usize = 0;
    while i < rows.len()
        invariant
            i <= rows@.len(),
            out@.len() == i,
            empty@ == Seq::<Option<String>>::empty(),
            forall|k: int|
                0 <= k < i ==> row_model_matches(
                    rows@[k],
                    row_floats_at(float_texts@, k),
                    #[trigger] out@[k],
                ),
        decreases rows@.len() - i,
    {
        let row_floats: &Vec<Option<String>> = if i < float_texts.len() {
            &float_texts[i]
        } else {
            &empty
        };
        proof {
            assert(row_floats@ == row_floats_at(float_texts@, i as int));
        }
        out.push(row_to_model(&rows[i], row_floats));
        i = i + 1;
    }
    out
}

} // verus!
