//! Batch-level file decisions: which directory entries count as CSV input,
//! and the size ordering that starts the largest files first.

use vstd::prelude::*;
use vstd::seq_lib::group_to_multiset_ensures;
use crate::bytes::{lit, lower_seq, to_lower};
use crate::project::{rfind_byte, lemma_rfind_byte_valid};

verus! {

/// A file name counts as CSV input when the text after its last `.`
/// folds to `csv`.
pub open spec fn spec_is_csv(name: Seq<u8>) -> bool {
    let d = rfind_byte(name, 0x2e);
    d >= 0 && lower_seq(name.subrange(d + 1, name.len() as int)) == lit("csv")
}

/// Case-insensitive test for the `.csv` extension.
pub fn is_csv_name(name: &[u8]) -> (r: bool)
    ensures
        r == spec_is_csv(name@),
{
    proof {
        lemma_rfind_byte_valid(name@, 0x2e);
    }
    let (found, d) = rfind_byte_pub(name, 0x2e);
    if !found {
        return false;
    }
    let n = name.len();
    proof {
        assert(d < name@.len());
    }
    let ext = vstd::slice::slice_subrange(name, d + 1, n);
    let low = to_lower(ext);
    crate::bytes::eq_lit(low.as_slice(), "csv")
}

/// Greatest position of byte `b`, executable form.
#[verifier::loop_isolation(false)]
fn rfind_byte_pub(s: &[u8], b: u8) -> (ret: (bool, usize))
    ensures
        ret.0 == (rfind_byte(s@, b) >= 0),
        ret.0 ==> ret.1 == rfind_byte(s@, b),
{
    let n = s.len();
    let mut cur: usize = n;
    proof {
        assert(s@.subrange(0, n as int) =~= s@);
    }
    while cur > 0
        invariant
            cur <= n,
            rfind_byte(s@, b) == rfind_byte(s@.subrange(0, cur as int), b),
        decreases cur,
    {
        let ghost sub = s@.subrange(0, cur as int);
        if s[cur - 1] == b {
            proof {
                assert(sub.last() == s@[cur - 1]);
                assert(rfind_byte(sub, b) == cur - 1);
            }
            return (true, cur - 1);
        }
        proof {
            assert(sub.last() == s@[cur - 1]);
            assert(sub.drop_last() =~= s@.subrange(0, cur - 1));
        }
        cur = cur - 1;
    }
    (false, 0)
}

/// One input file as the orchestrator sees it.
pub struct FileEntry {
    pub name: Vec<u8>,
    pub size: u64,
}

/// Sorts the batch descending by size, so the largest files start first.
/// The result holds exactly the given entries.
#[verifier::loop_isolation(false)]
pub fn sort_by_size_desc(files: Vec<FileEntry>) -> (r: Vec<FileEntry>)
    ensures
        r@.to_multiset() == files@.to_multiset(),
        r@.len() == files@.len(),
        forall|i: int, j: int| 0 <= i <= j < r@.len() ==> r@[i].size >= r@[j].size,
{
    broadcast use group_to_multiset_ensures;

    let mut rem = files;
    let mut out: Vec<FileEntry> = Vec::new();
    proof {
        assert(out@.to_multiset().add(rem@.to_multiset()) =~= files@.to_multiset());
    }
    while rem.len() > 0
        invariant
            out@.len() + rem@.len() == files@.len(),
            out@.to_multiset().add(rem@.to_multiset()) == files@.to_multiset(),
            forall|i: int, j: int| 0 <= i <= j < out@.len() ==> out@[i].size >= out@[j].size,
            forall|i: int, j: int|
                0 <= i < out@.len() && 0 <= j < rem@.len() ==> out@[i].size >= rem@[j].size,
        decreases rem.len(),
    {
        let mut mi: usize = 0;
        let mut k: usize = 1;
        while k < rem.len()
            invariant
                0 <= mi < k <= rem@.len(),
                forall|t: int| 0 <= t < k ==> rem@[mi as int].size >= rem@[t].size,
            decreases rem.len() - k,
        {
            if rem[k].size > rem[mi].size {
                mi = k;
            }
            k = k + 1;
        }
        let ghost rem_before = rem@;
        let ghost out_before = out@;
        let e = rem.remove(mi);
        out.push(e);
        proof {
            assert(rem@ =~= rem_before.remove(mi as int));
            assert(rem@.to_multiset() =~= rem_before.to_multiset().remove(e));
            assert(out@ =~= out_before.push(e));
            assert(out@.to_multiset() =~= out_before.to_multiset().insert(e));
            assert(rem_before.to_multiset().count(e) > 0) by {
                assert(rem_before[mi as int] == e);
                assert(rem_before.contains(e));
            }
            assert(out@.to_multiset().add(rem@.to_multiset()) =~= files@.to_multiset());
            assert(forall|j: int|
                0 <= j < rem@.len() ==> e.size >= rem@[j].size) by {
                assert(forall|j: int|
                    0 <= j < rem@.len() ==> rem@[j] == (if j < mi as int {
                        rem_before[j]
                    } else {
                        rem_before[j + 1]
                    }));
            }
            assert(forall|i: int| 0 <= i < out_before.len() ==> out_before[i].size >= e.size) by {
                assert(rem_before[mi as int] == e);
            }
        }
    }
    out
}

} // verus!
