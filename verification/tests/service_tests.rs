use booster::config::{default_module_path, normalize_kv_url, tune_defaults_flag};
use booster::pg::{kind_of_oid, ColKind};
use booster::reload::{is_wasm_file_name, mtime_or_epoch, order_candidates, ModuleCandidate};
use booster::surface::{cost_string, error_with_hint, health_body};
use booster::text::{str_contains_sub, str_eq};

#[test]
fn test_health_body() {
    assert_eq!(health_body(), "{\"status\":\"ok\"}");
}

#[test]
fn test_cost_string_format() {
    assert_eq!(cost_string(0), "0ms");
    assert_eq!(cost_string(7), "7ms");
    assert_eq!(cost_string(12345), "12345ms");
    assert_eq!(cost_string(1000000000000), "1000000000000ms");
}

#[test]
fn test_error_hint_only_for_memfd_denial() {
    let plain = error_with_hint("query failed".to_string());
    assert_eq!(plain, "query failed");

    let hinted = error_with_hint("xyz: cannot create a memfd: op failed".to_string());
    assert!(hinted.starts_with("xyz: cannot create a memfd: op failed ("));
    assert!(hinted.contains("memfd_create was denied"));
    assert!(hinted.contains("seccomp/AppArmor/systemd"));
    assert!(hinted.ends_with("retry.)"));
}

#[test]
fn test_kv_url_scheme_rule() {
    assert_eq!(
        normalize_kv_url("redis://example:6379".to_string()),
        "redis://example:6379"
    );
    assert_eq!(
        normalize_kv_url("unix://tmp/redis.sock".to_string()),
        "unix://tmp/redis.sock"
    );
    assert_eq!(normalize_kv_url("example:6379".to_string()), "redis://example:6379");
    assert_eq!(normalize_kv_url(String::new()), "redis://");
}

#[test]
fn test_tune_defaults_spellings() {
    assert!(tune_defaults_flag(&None));
    assert!(tune_defaults_flag(&Some("1".to_string())));
    assert!(tune_defaults_flag(&Some("yes".to_string())));
    assert!(tune_defaults_flag(&Some("anything".to_string())));
    assert!(!tune_defaults_flag(&Some("0".to_string())));
    assert!(!tune_defaults_flag(&Some("false".to_string())));
    assert!(!tune_defaults_flag(&Some("FALSE".to_string())));
    assert!(!tune_defaults_flag(&Some("no".to_string())));
    assert!(!tune_defaults_flag(&Some("NO".to_string())));
}

#[test]
fn test_default_module_path_value() {
    assert_eq!(default_module_path(), "components/target/wasm32-wasip1/debug/");
}

#[test]
fn test_text_helpers() {
    assert!(str_contains_sub("hello world", "o w"));
    assert!(str_contains_sub("hello", ""));
    assert!(!str_contains_sub("hello", "world"));
    assert!(!str_contains_sub("ab", "abc"));
    assert!(str_eq("same", "same"));
    assert!(!str_eq("same", "Same"));
    assert!(!str_eq("same", "sam"));
}

#[test]
fn test_wasm_file_name_rule() {
    assert!(is_wasm_file_name("guest.wasm"));
    assert!(is_wasm_file_name("a.b.wasm"));
    assert!(!is_wasm_file_name(".wasm"));
    assert!(!is_wasm_file_name("guest.wasmx"));
    assert!(!is_wasm_file_name("guestwasm"));
    assert!(!is_wasm_file_name("guest.wat"));
    assert!(!is_wasm_file_name(""));
}

#[test]
fn test_unreadable_mtime_counts_as_epoch() {
    assert_eq!(mtime_or_epoch(Some(5)), 5);
    assert_eq!(mtime_or_epoch(Some(u128::MAX)), u128::MAX);
    assert_eq!(mtime_or_epoch(None), 0);
}

#[test]
fn test_candidates_ordered_newest_first() {
    let cands = vec![
        ModuleCandidate { index: 0, mtime: 50 },
        ModuleCandidate { index: 1, mtime: 300 },
        ModuleCandidate { index: 2, mtime: 10 },
        ModuleCandidate { index: 3, mtime: 300 },
        ModuleCandidate { index: 4, mtime: 0 },
    ];
    let ordered = order_candidates(cands.clone());
    assert_eq!(ordered.len(), cands.len());
    for w in ordered.windows(2) {
        assert!(w[0].mtime >= w[1].mtime);
    }
    let mut seen: Vec<usize> = ordered.iter().map(|c| c.index).collect();
    seen.sort();
    assert_eq!(seen, vec![0, 1, 2, 3, 4]);
}

#[test]
fn test_declared_type_families() {
    assert!(matches!(kind_of_oid(16), ColKind::Bool));
    assert!(matches!(kind_of_oid(17), ColKind::Bytea));
    assert!(matches!(kind_of_oid(19), ColKind::Text));
    assert!(matches!(kind_of_oid(20), ColKind::Int8));
    assert!(matches!(kind_of_oid(21), ColKind::Int2));
    assert!(matches!(kind_of_oid(23), ColKind::Int4));
    assert!(matches!(kind_of_oid(25), ColKind::Text));
    assert!(matches!(kind_of_oid(114), ColKind::Json));
    assert!(matches!(kind_of_oid(700), ColKind::Float4));
    assert!(matches!(kind_of_oid(701), ColKind::Float8));
    assert!(matches!(kind_of_oid(1042), ColKind::Text));
    assert!(matches!(kind_of_oid(1043), ColKind::Text));
    assert!(matches!(kind_of_oid(2950), ColKind::Uuid));
    assert!(matches!(kind_of_oid(3802), ColKind::Json));
    assert!(matches!(kind_of_oid(600), ColKind::Other));
}
