//! Rules of the request surface: the health body, the cost string of a
//! finished run, and the diagnostic hint appended when the VM cannot create
//! anonymous memory objects under a sandboxing policy.

use vstd::prelude::*;
use vstd::string::StringExecFns;
use crate::text::{contains_seq, dec_chars, push_dec_chars, str_contains_sub};

verus! {

/// The health endpoint's body.
pub fn health_body() -> (r: String)
    ensures
        r@ == "{\"status\":\"ok\"}"@,
{
    String::from_str("{\"status\":\"ok\"}")
}

/// The wall-clock cost of a run, rendered as `<N>ms`.
pub fn cost_string(elapsed_ms: u128) -> (r: String)
    ensures
        r@ == dec_chars(elapsed_ms as nat) + "ms"@,
{
    let mut s: String = String::new();
    push_dec_chars(&mut s, elapsed_ms);
    s.append("ms");
    proof {
        assert(s@ =~= dec_chars(elapsed_ms as nat) + "ms"@);
    }
    s
}

/// A failure message that indicates denied anonymous memory-object creation
/// gets a diagnostic hint about sandboxing appended; any other message is
/// returned unchanged.
pub fn error_with_hint(msg: String) -> (r: String)
    ensures
        contains_seq(msg@, "cannot create a memfd"@) ==> r@ == msg@
            + " (cannot create a memfd (EPERM): memfd_create was denied. This is usually caused by seccomp/AppArmor/systemd sandboxing or a restricted container environment. If running under a service/container, allow the memfd_create syscall (or relax the sandbox) and retry.)"@,
        !contains_seq(msg@, "cannot create a memfd"@) ==> r == msg,
{
    if str_contains_sub(msg.as_str(), "cannot create a memfd") {
        msg.concat(
            " (cannot create a memfd (EPERM): memfd_create was denied. This is usually caused by seccomp/AppArmor/systemd sandboxing or a restricted container environment. If running under a service/container, allow the memfd_create syscall (or relax the sandbox) and retry.)",
        )
    } else {
        msg
    }
}

} // verus!
