//! Configuration rules: the default module path, the KV URL scheme rule,
//! and the switch that disables the tuned VM memory defaults.

use vstd::prelude::*;
use vstd::string::StringExecFns;
use crate::text::{contains_seq, str_contains_sub, str_eq};

verus! {

/// Concurrent guest invocations allowed when none is configured.
pub const DEFAULT_POOL_MAX: usize = 8;

/// Captured bytes per output stream when no cap is configured.
pub const DEFAULT_MAX_OUTPUT_BYTES: usize = 1048576;

/// Relational connection-pool size when none is configured.
pub const DEFAULT_PG_POOL_MAX: u32 = 16;

/// Key-value connection-pool size when none is configured.
pub const DEFAULT_KV_POOL_MAX: u32 = 32;

/// The module directory used when none is configured.
pub fn default_module_path() -> (r: String)
    ensures
        r@ == "components/target/wasm32-wasip1/debug/"@,
{
    String::from_str("components/target/wasm32-wasip1/debug/")
}

/// A configured KV URL is used as given when it already carries a scheme;
/// otherwise the KV scheme is prefixed.
pub fn normalize_kv_url(url: String) -> (r: String)
    ensures
        contains_seq(url@, "://"@) ==> r == url,
        !contains_seq(url@, "://"@) ==> r@ == "redis://"@ + url@,
{
    if str_contains_sub(url.as_str(), "://") {
        url
    } else {
        String::from_str("redis://").concat(url.as_str())
    }
}

/// Whether the tuned VM memory defaults apply: they do unless the switch is
/// set to one of the recognized negative spellings.
pub fn tune_defaults_flag(v: &Option<String>) -> (r: bool)
    ensures
        v is None ==> r == true,
        v matches Some(s) ==> r == !(s@ == "0"@ || s@ == "false"@ || s@ == "FALSE"@ || s@ == "no"@
            || s@ == "NO"@),
{
    match v {
        None => true,
        Some(s) => !(str_eq(s.as_str(), "0") || str_eq(s.as_str(), "false") || str_eq(
            s.as_str(),
            "FALSE",
        ) || str_eq(s.as_str(), "no") || str_eq(s.as_str(), "NO")),
    }
}

} // verus!
