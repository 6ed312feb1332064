//! Rules of the hot-reload pipeline: which files are module candidates, and
//! in which order compilation is attempted. The shell watches the module
//! directory, reads each candidate's modification time, and then tries the
//! candidates newest first, publishing the first one that compiles.

use vstd::prelude::*;
use vstd::string::StrSliceExecFns;

verus! {

/// Milliseconds the reload pipeline sleeps after a filesystem event before
/// coalescing the burst and reloading.
pub const DEBOUNCE_MS: u64 = 200;

/// A module candidate: the shell's index for the file, and its modification
/// time (nanoseconds since the epoch; unreadable times are zero).
#[derive(Clone, Copy, Debug)]
pub struct ModuleCandidate {
    pub index: usize,
    pub mtime: u128,
}

/// Candidates ordered newest first.
pub open spec fn sorted_newest_first(s: Seq<ModuleCandidate>) -> bool {
    forall|i: int, j: int| 0 <= i < j < s.len() ==> #[trigger] s[i].mtime >= #[trigger] s[j].mtime
}

/// An unreadable modification time counts as the epoch; the file stays a
/// candidate either way.
pub fn mtime_or_epoch(t: Option<u128>) -> (r: u128)
    ensures
        r == match t {
            Some(v) => v,
            None => 0u128,
        },
{
    match t {
        Some(v) => v,
        None => 0,
    }
}

/// A file name names a module candidate exactly when it has the module
/// extension after a non-empty stem.
pub fn is_wasm_file_name(name: &str) -> (r: bool)
    ensures
        r == (name@.len() >= 6 && name@.subrange(name@.len() - 5, name@.len() as int)
            == ".wasm"@),
{
    proof {
        reveal_strlit(".wasm");
    }
    let n: usize = name.unicode_len();
    if n < 6 {
        return false;
    }
    let r: bool = name.get_char(n - 5) == '.' && name.get_char(n - 4) == 'w' && name.get_char(
        n - 3,
    ) == 'a' && name.get_char(n - 2) == 's' && name.get_char(n - 1) == 'm';
    proof {
        if r {
            assert(name@.subrange(name@.len() - 5, name@.len() as int) =~= ".wasm"@);
        } else {
            assert(name@.subrange(name@.len() - 5, name@.len() as int) != ".wasm"@) by {
                if name@.subrange(name@.len() - 5, name@.len() as int) == ".wasm"@ {
                    assert(name@[name@.len() - 5] == ".wasm"@[0]);
                    assert(name@[name@.len() - 4] == ".wasm"@[1]);
                    assert(name@[name@.len() - 3] == ".wasm"@[2]);
                    assert(name@[name@.len() - 2] == ".wasm"@[3]);
                    assert(name@[name@.len() - 1] == ".wasm"@[4]);
                }
            }
        }
    }
    r
}

/// The index of a newest candidate among `v` (`v` must be non-empty).
fn index_of_newest(v: &Vec<ModuleCandidate>) -> (mi: usize)
    requires
        v@.len() > 0,
    ensures
        mi < v@.len(),
        forall|j: int| 0 <= j < v@.len() ==> v@[mi as int].mtime >= #[trigger] v@[j].mtime,
{
    let mut mi: usize = 0;
    let mut k: usize = 1;
    while k < v.len()
        invariant
            mi < k <= v@.len(),
            forall|j: int| 0 <= j < k ==> v@[mi as int].mtime >= #[trigger] v@[j].mtime,
        decreases v@.len() - k,
    {
        if v[k].mtime > v[mi].mtime {
            mi = k;
        }
        k = k + 1;
    }
    mi
}

/// Order the candidates newest first: the result is a permutation of the
/// input, sorted by modification time in descending order.
pub fn order_candidates(v: Vec<ModuleCandidate>) -> (r: Vec<ModuleCandidate>)
    ensures
        r@.len() == v@.len(),
        sorted_newest_first(r@),
        r@.to_multiset() == v@.to_multiset(),
{
    broadcast use vstd::seq_lib::group_to_multiset_ensures;
    broadcast use vstd::multiset::group_multiset_axioms;

    let mut rest: Vec<ModuleCandidate> = v;
    let mut out: Vec<ModuleCandidate> = Vec::new();
    while rest.len() > 0
        invariant
            out@.len() + rest@.len() == v@.len(),
            sorted_newest_first(out@),
            forall|i: int, j: int|
                0 <= i < out@.len() && 0 <= j < rest@.len() ==> #[trigger] out@[i].mtime
                    >= #[trigger] rest@[j].mtime,
            out@.to_multiset().add(rest@.to_multiset()) =~= v@.to_multiset(),
        decreases rest@.len(),
    {
        let ghost rest0: Seq<ModuleCandidate> = rest@;
        let ghost out0: Seq<ModuleCandidate> = out@;
        let mi: usize = index_of_newest(&rest);
        let c: ModuleCandidate = rest.remove(mi);
        out.push(c);
        proof {
            broadcast use vstd::seq_lib::group_to_multiset_ensures;
            broadcast use vstd::multiset::group_multiset_axioms;

            assert(rest0[mi as int] == c);
            assert(rest0.contains(c));
            assert(rest@ == rest0.remove(mi as int));
            assert(rest0.remove(mi as int).to_multiset() =~= rest0.to_multiset().remove(c));
            assert(out@ == out0.push(c));
            assert(out0.push(c).to_multiset() =~= out0.to_multiset().insert(c));
            assert(out@.to_multiset().add(rest@.to_multiset()) =~= out0.to_multiset().add(
                rest0.to_multiset(),
            ));
        }
    }
    proof {
        assert(out@.to_multiset() =~= v@.to_multiset());
    }
    out
}

} // verus!
