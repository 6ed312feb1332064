//! Return-code logic of the guest-visible host calls.
//!
//! Every host call hands the guest a single `i32`: a non-negative count on
//! success and a small negative class on failure. The functions here are the
//! decision core of each host call; the unverified shell performs the actual
//! guest-memory and backend traffic and routes every outcome through these
//! functions, so the code table the guests depend on is pinned down here.
//!
//! Argument checks run before any memory is touched: the shell reads guest
//! memory only when they return `None`. A reply whose payload is `None`
//! means the shell writes nothing back into guest memory.

use vstd::prelude::*;
use vstd::utf8::{valid_utf8, decode_utf8};

verus! {

/// Relational `exec`: backend or pool failure.
pub const PG_EXEC_ERR_BACKEND: i32 = -1;

/// Relational `exec`: bad guest memory or non-UTF-8 statement.
pub const PG_EXEC_ERR_ARG: i32 = -2;

/// Relational `query`: backend or serialization failure.
pub const PG_QUERY_ERR_BACKEND: i32 = -1;

/// Relational `query`: output buffer too small for the payload.
pub const PG_QUERY_ERR_BUFFER: i32 = -2;

/// Relational `query`: bad guest memory, non-UTF-8 statement or negative length.
pub const PG_QUERY_ERR_ARG: i32 = -3;

/// KV `get`: key absent.
pub const KV_GET_ERR_ABSENT: i32 = -1;

/// KV `get`: output buffer too small for the value.
pub const KV_GET_ERR_BUFFER: i32 = -2;

/// KV `get`: bad guest memory, non-UTF-8 key or negative length.
pub const KV_GET_ERR_ARG: i32 = -3;

/// KV `get`: backend failure.
pub const KV_GET_ERR_BACKEND: i32 = -4;

/// KV `set` / `set_ex`: success.
pub const KV_SET_OK: i32 = 0;

/// KV `set` / `set_ex`: backend failure.
pub const KV_SET_ERR_BACKEND: i32 = -1;

/// KV `set` / `set_ex`: bad arguments (including a negative TTL).
pub const KV_SET_ERR_ARG: i32 = -2;

/// KV `exists` and `del`: argument or backend failure.
pub const KV_ERR: i32 = -1;

/// Rows-affected and keys-removed counts are reported saturated to `i32`.
pub fn saturating_rows_code(n: u64) -> (r: i32)
    ensures
        n <= i32::MAX ==> r == n as i32,
        n > i32::MAX ==> r == i32::MAX,
{
    if n > i32::MAX as u64 {
        i32::MAX
    } else {
        n as i32
    }
}

/// Argument gate of relational `exec`: a negative pointer or length is an
/// argument error before any memory is read.
pub fn pg_exec_gate(sql_ptr: i32, sql_len: i32) -> (r: Option<i32>)
    ensures
        r == if sql_ptr < 0 || sql_len < 0 {
            Some(PG_EXEC_ERR_ARG)
        } else {
            None::<i32>
        },
{
    if sql_ptr < 0 || sql_len < 0 {
        Some(PG_EXEC_ERR_ARG)
    } else {
        None
    }
}

/// Argument gate of relational `query`: a negative statement pointer or
/// length, or a negative output length, is an argument error before any
/// memory is read.
pub fn pg_query_gate(sql_ptr: i32, sql_len: i32, out_len: i32) -> (r: Option<i32>)
    ensures
        r == if sql_ptr < 0 || sql_len < 0 || out_len < 0 {
            Some(PG_QUERY_ERR_ARG)
        } else {
            None::<i32>
        },
{
    if sql_ptr < 0 || sql_len < 0 || out_len < 0 {
        Some(PG_QUERY_ERR_ARG)
    } else {
        None
    }
}

/// Argument gate of KV `get`.
pub fn kv_get_gate(k_ptr: i32, k_len: i32, out_len: i32) -> (r: Option<i32>)
    ensures
        r == if k_ptr < 0 || k_len < 0 || out_len < 0 {
            Some(KV_GET_ERR_ARG)
        } else {
            None::<i32>
        },
{
    if k_ptr < 0 || k_len < 0 || out_len < 0 {
        Some(KV_GET_ERR_ARG)
    } else {
        None
    }
}

/// Argument gate of KV `set`.
pub fn kv_set_gate(k_ptr: i32, k_len: i32, v_ptr: i32, v_len: i32) -> (r: Option<i32>)
    ensures
        r == if k_ptr < 0 || k_len < 0 || v_ptr < 0 || v_len < 0 {
            Some(KV_SET_ERR_ARG)
        } else {
            None::<i32>
        },
{
    if k_ptr < 0 || k_len < 0 || v_ptr < 0 || v_len < 0 {
        Some(KV_SET_ERR_ARG)
    } else {
        None
    }
}

/// Argument gate of KV `set_ex`: as `set`, and a negative TTL is rejected.
pub fn kv_set_ex_gate(k_ptr: i32, k_len: i32, v_ptr: i32, v_len: i32, ttl_s: i64) -> (r: Option<
    i32,
>)
    ensures
        r == if ttl_s < 0 || k_ptr < 0 || k_len < 0 || v_ptr < 0 || v_len < 0 {
            Some(KV_SET_ERR_ARG)
        } else {
            None::<i32>
        },
{
    if ttl_s < 0 || k_ptr < 0 || k_len < 0 || v_ptr < 0 || v_len < 0 {
        Some(KV_SET_ERR_ARG)
    } else {
        None
    }
}

/// Argument gate of KV `exists` and `del`.
pub fn kv_key_gate(k_ptr: i32, k_len: i32) -> (r: Option<i32>)
    ensures
        r == if k_ptr < 0 || k_len < 0 {
            Some(KV_ERR)
        } else {
            None::<i32>
        },
{
    if k_ptr < 0 || k_len < 0 {
        Some(KV_ERR)
    } else {
        None
    }
}

/// Whether a write of reply bytes at this guest pointer may be attempted.
pub fn write_allowed(out_ptr: i32) -> (r: bool)
    ensures
        r == (out_ptr >= 0),
{
    out_ptr >= 0
}

/// Relies on `String::from_utf8` of std: it succeeds exactly on valid UTF-8
/// input and yields its decoding.
#[verifier::external_body]
fn utf8_to_string(bytes: Vec<u8>) -> (r: Option<String>)
    ensures
        r is Some <==> valid_utf8(bytes@),
        r is Some ==> r.unwrap()@ == decode_utf8(bytes@),
{
    match String::from_utf8(bytes) {
        Ok(s) => Some(s),
        Err(_) => None,
    }
}

/// Decode a text argument (a SQL statement, a KV key) read from guest
/// memory; bytes that are not UTF-8 are the given argument-error code.
pub fn text_argument(bytes: Vec<u8>, bad_code: i32) -> (r: Result<String, i32>)
    ensures
        valid_utf8(bytes@) ==> (r matches Ok(s) && s@ == decode_utf8(bytes@)),
        !valid_utf8(bytes@) ==> r == Err::<String, i32>(bad_code),
{
    match utf8_to_string(bytes) {
        Some(s) => Ok(s),
        None => Err(bad_code),
    }
}

/// A host call's conclusion: the return code for the guest, and the bytes to
/// place in the guest's output buffer, if any. `payload == None` means
/// nothing is written into guest memory.
pub struct Reply {
    pub code: i32,
    pub payload: Option<Vec<u8>>,
}

/// The bytes of a reply payload, if one is present.
pub open spec fn payload_bytes(p: Option<Vec<u8>>) -> Option<Seq<u8>> {
    match p {
        Some(v) => Some(v@),
        None => None,
    }
}

/// Relational `exec` conclusion: the saturated rows-affected count, or the
/// backend error code.
pub fn pg_exec_decide(outcome: Result<u64, ()>) -> (r: i32)
    ensures
        outcome matches Ok(n) ==> r == if n <= i32::MAX {
            n as int
        } else {
            i32::MAX as int
        },
        outcome is Err ==> r == PG_EXEC_ERR_BACKEND,
{
    match outcome {
        Ok(n) => saturating_rows_code(n),
        Err(()) => PG_EXEC_ERR_BACKEND,
    }
}

/// Relational `query` conclusion: the JSON payload is delivered exactly when
/// it fits the guest's buffer; a too-small buffer is reported with nothing
/// written.
pub fn pg_query_decide(payload: Vec<u8>, out_len: i32) -> (r: Reply)
    requires
        out_len >= 0,
    ensures
        payload@.len() > out_len ==> r.code == PG_QUERY_ERR_BUFFER && r.payload is None,
        payload@.len() <= out_len ==> r.code == payload@.len() && r.payload == Some(payload),
{
    if payload.len() > out_len as usize {
        Reply { code: PG_QUERY_ERR_BUFFER, payload: None }
    } else {
        let n: i32 = payload.len() as i32;
        Reply { code: n, payload: Some(payload) }
    }
}

/// What the KV backend holds, as a map from key bytes to value bytes.
pub open spec fn kv_model_get(m: Map<Seq<u8>, Seq<u8>>, k: Seq<u8>) -> Option<Seq<u8>> {
    if m.contains_key(k) {
        Some(m[k])
    } else {
        None
    }
}

/// The store after a `set`.
pub open spec fn kv_model_set(m: Map<Seq<u8>, Seq<u8>>, k: Seq<u8>, v: Seq<u8>) -> Map<
    Seq<u8>,
    Seq<u8>,
> {
    m.insert(k, v)
}

/// The store after a `del`.
pub open spec fn kv_model_del(m: Map<Seq<u8>, Seq<u8>>, k: Seq<u8>) -> Map<Seq<u8>, Seq<u8>> {
    m.remove(k)
}

/// How many keys a `del` of one key removes.
pub open spec fn kv_model_del_count(m: Map<Seq<u8>, Seq<u8>>, k: Seq<u8>) -> int {
    if m.contains_key(k) {
        1
    } else {
        0
    }
}

/// The code a `get` against store `m` concludes with, for a buffer of
/// `cap` bytes.
pub open spec fn kv_get_code_of(m: Map<Seq<u8>, Seq<u8>>, k: Seq<u8>, cap: int) -> int {
    match kv_model_get(m, k) {
        None => KV_GET_ERR_ABSENT as int,
        Some(v) => if v.len() > cap {
            KV_GET_ERR_BUFFER as int
        } else {
            v.len() as int
        },
    }
}

/// The bytes a `get` against store `m` delivers, for a buffer of `cap` bytes.
pub open spec fn kv_get_bytes_of(m: Map<Seq<u8>, Seq<u8>>, k: Seq<u8>, cap: int) -> Option<
    Seq<u8>,
> {
    match kv_model_get(m, k) {
        None => None,
        Some(v) => if v.len() > cap {
            None
        } else {
            Some(v)
        },
    }
}

/// Whether a backend `get` outcome reflects store `m` at key `k` without a
/// backend failure.
pub open spec fn get_outcome_reflects(
    outcome: Result<Option<Vec<u8>>, ()>,
    m: Map<Seq<u8>, Seq<u8>>,
    k: Seq<u8>,
) -> bool {
    match outcome {
        Ok(Some(v)) => kv_model_get(m, k) == Some(v@),
        Ok(None) => kv_model_get(m, k) is None,
        Err(()) => false,
    }
}

/// KV `get` conclusion: a hit is delivered exactly when the value fits the
/// guest's buffer; a too-small buffer and an absent key are reported with
/// nothing written. Against an error-free backend the reply is exactly what
/// the store model prescribes.
pub fn kv_get_decide(outcome: Result<Option<Vec<u8>>, ()>, out_len: i32) -> (r: Reply)
    requires
        out_len >= 0,
    ensures
        outcome is Err ==> r.code == KV_GET_ERR_BACKEND && r.payload is None,
        outcome matches Ok(None) ==> r.code == KV_GET_ERR_ABSENT && r.payload is None,
        outcome matches Ok(Some(v)) ==> {
            &&& v@.len() > out_len ==> r.code == KV_GET_ERR_BUFFER && r.payload is None
            &&& v@.len() <= out_len ==> r.code == v@.len() && r.payload == Some(v)
        },
        forall|m: Map<Seq<u8>, Seq<u8>>, k: Seq<u8>|
            get_outcome_reflects(outcome, m, k) ==> r.code == #[trigger] kv_get_code_of(
                m,
                k,
                out_len as int,
            ) && payload_bytes(r.payload) == kv_get_bytes_of(m, k, out_len as int),
{
    match outcome {
        Err(()) => Reply { code: KV_GET_ERR_BACKEND, payload: None },
        Ok(None) => Reply { code: KV_GET_ERR_ABSENT, payload: None },
        Ok(Some(v)) => {
            if v.len() > out_len as usize {
                Reply { code: KV_GET_ERR_BUFFER, payload: None }
            } else {
                let n: i32 = v.len() as i32;
                Reply { code: n, payload: Some(v) }
            }
        },
    }
}

/// KV `set` / `set_ex` conclusion.
pub fn kv_set_decide(outcome: Result<(), ()>) -> (r: i32)
    ensures
        outcome is Ok ==> r == KV_SET_OK,
        outcome is Err ==> r == KV_SET_ERR_BACKEND,
{
    match outcome {
        Ok(()) => KV_SET_OK,
        Err(()) => KV_SET_ERR_BACKEND,
    }
}

/// KV `exists` conclusion: `1` when present, `0` when absent.
pub fn kv_exists_decide(outcome: Result<bool, ()>) -> (r: i32)
    ensures
        outcome == Ok::<bool, ()>(true) ==> r == 1,
        outcome == Ok::<bool, ()>(false) ==> r == 0,
        outcome is Err ==> r == KV_ERR,
{
    match outcome {
        Ok(true) => 1,
        Ok(false) => 0,
        Err(()) => KV_ERR,
    }
}

/// KV `del` conclusion: the saturated removed-keys count.
pub fn kv_del_decide(outcome: Result<u64, ()>) -> (r: i32)
    ensures
        outcome matches Ok(n) ==> r == if n <= i32::MAX {
            n as int
        } else {
            i32::MAX as int
        },
        outcome is Err ==> r == KV_ERR,
{
    match outcome {
        Ok(n) => saturating_rows_code(n),
        Err(()) => KV_ERR,
    }
}

/// Round trip through the key-value bridge: a value stored under a key and
/// fitting the guest's buffer is read back exactly, byte for byte, and once
/// the key is deleted a read of it reports the key as absent.
pub proof fn lemma_kv_round_trip(m: Map<Seq<u8>, Seq<u8>>, k: Seq<u8>, v: Seq<u8>, cap: int)
    requires
        v.len() <= cap,
    ensures
        kv_get_code_of(kv_model_set(m, k, v), k, cap) == v.len(),
        kv_get_bytes_of(kv_model_set(m, k, v), k, cap) == Some(v),
        kv_get_code_of(kv_model_del(kv_model_set(m, k, v), k), k, cap) == KV_GET_ERR_ABSENT as int,
        kv_get_bytes_of(kv_model_del(kv_model_set(m, k, v), k), k, cap) is None,
{
}

/// A `del` of a key just stored removes exactly that one key.
pub proof fn lemma_kv_del_counts(m: Map<Seq<u8>, Seq<u8>>, k: Seq<u8>, v: Seq<u8>)
    ensures
        kv_model_del_count(kv_model_set(m, k, v), k) == 1,
        kv_model_del_count(kv_model_del(kv_model_set(m, k, v), k), k) == 0,
{
}

} // verus!
