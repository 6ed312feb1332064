use booster::bridge::{
    kv_del_decide, kv_exists_decide, kv_get_decide, kv_get_gate, kv_key_gate, kv_set_decide,
    kv_set_ex_gate, kv_set_gate, pg_exec_decide, pg_exec_gate, pg_query_decide, pg_query_gate,
    saturating_rows_code, text_argument, write_allowed,
};

#[test]
fn test_negative_pointer_or_length_is_rejected_before_memory() {
    assert_eq!(pg_exec_gate(-1, 4), Some(-2));
    assert_eq!(pg_exec_gate(0, -1), Some(-2));
    assert_eq!(pg_exec_gate(0, 0), None);

    assert_eq!(pg_query_gate(-1, 0, 0), Some(-3));
    assert_eq!(pg_query_gate(0, -5, 0), Some(-3));
    assert_eq!(pg_query_gate(0, 0, -1), Some(-3));
    assert_eq!(pg_query_gate(1, 2, 3), None);

    assert_eq!(kv_get_gate(-7, 1, 1), Some(-3));
    assert_eq!(kv_get_gate(1, 1, -1), Some(-3));
    assert_eq!(kv_get_gate(0, 0, 0), None);

    assert_eq!(kv_set_gate(-1, 0, 0, 0), Some(-2));
    assert_eq!(kv_set_gate(0, 0, 0, -3), Some(-2));
    assert_eq!(kv_set_gate(0, 1, 2, 3), None);

    assert_eq!(kv_set_ex_gate(0, 1, 2, 3, -1), Some(-2));
    assert_eq!(kv_set_ex_gate(-1, 1, 2, 3, 10), Some(-2));
    assert_eq!(kv_set_ex_gate(0, 1, 2, 3, 0), None);

    assert_eq!(kv_key_gate(-1, 0), Some(-1));
    assert_eq!(kv_key_gate(0, 0), None);

    assert!(!write_allowed(-1));
    assert!(write_allowed(0));
}

#[test]
fn test_exec_code_saturates_row_count() {
    assert_eq!(saturating_rows_code(0), 0);
    assert_eq!(saturating_rows_code(41), 41);
    assert_eq!(saturating_rows_code(i32::MAX as u64), i32::MAX);
    assert_eq!(saturating_rows_code(i32::MAX as u64 + 1), i32::MAX);
    assert_eq!(saturating_rows_code(u64::MAX), i32::MAX);

    assert_eq!(pg_exec_decide(Ok(7)), 7);
    assert_eq!(pg_exec_decide(Ok(u64::MAX)), i32::MAX);
    assert_eq!(pg_exec_decide(Err(())), -1);
}

#[test]
fn test_query_payload_delivered_only_when_it_fits() {
    let payload = vec![1u8, 2, 3, 4];
    let r = pg_query_decide(payload.clone(), 4);
    assert_eq!(r.code, 4);
    assert_eq!(r.payload, Some(payload.clone()));

    // Too small a buffer: -2 and nothing written.
    let r = pg_query_decide(payload, 3);
    assert_eq!(r.code, -2);
    assert_eq!(r.payload, None);
}

#[test]
fn test_kv_get_codes() {
    // Hit that fits: byte count and the exact bytes.
    let r = kv_get_decide(Ok(Some(vec![9u8, 8, 7])), 16);
    assert_eq!(r.code, 3);
    assert_eq!(r.payload, Some(vec![9u8, 8, 7]));

    // Hit that does not fit: -2 and nothing written.
    let r = kv_get_decide(Ok(Some(vec![9u8, 8, 7])), 2);
    assert_eq!(r.code, -2);
    assert_eq!(r.payload, None);

    // Absent key: -1.
    let r = kv_get_decide(Ok(None), 16);
    assert_eq!(r.code, -1);
    assert_eq!(r.payload, None);

    // Backend failure: -4.
    let r = kv_get_decide(Err(()), 16);
    assert_eq!(r.code, -4);
    assert_eq!(r.payload, None);
}

#[test]
fn test_kv_set_exists_del_codes() {
    assert_eq!(kv_set_decide(Ok(())), 0);
    assert_eq!(kv_set_decide(Err(())), -1);

    assert_eq!(kv_exists_decide(Ok(true)), 1);
    assert_eq!(kv_exists_decide(Ok(false)), 0);
    assert_eq!(kv_exists_decide(Err(())), -1);

    assert_eq!(kv_del_decide(Ok(1)), 1);
    assert_eq!(kv_del_decide(Ok(0)), 0);
    assert_eq!(kv_del_decide(Ok(u64::MAX)), i32::MAX);
    assert_eq!(kv_del_decide(Err(())), -1);
}

#[test]
fn test_text_argument_decodes_utf8_and_rejects_other_bytes() {
    let r = text_argument(b"SELECT 1".to_vec(), -2);
    assert_eq!(r, Ok(String::from("SELECT 1")));

    let r = text_argument("k\u{00e9}y".as_bytes().to_vec(), -3);
    assert_eq!(r, Ok(String::from("k\u{00e9}y")));

    // An invalid UTF-8 byte is the given argument-error code.
    let r = text_argument(vec![0xffu8, 0x00], -3);
    assert_eq!(r, Err(-3));
}

#[test]
fn test_kv_round_trip_through_decisions() {
    // set(k, v); get(k, buf) delivers v; del(k); get(k, buf) is -1.
    let v = b"value".to_vec();
    let r = kv_get_decide(Ok(Some(v.clone())), 16);
    assert_eq!(r.code, v.len() as i32);
    assert_eq!(r.payload, Some(v));
    let r = kv_get_decide(Ok(None), 16);
    assert_eq!(r.code, -1);
}
