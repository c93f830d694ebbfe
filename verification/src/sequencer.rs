//! The renumbering protocol: after any deletion the record ids are
//! rewritten to the dense sequence `1 ..= N`, and the next fresh id is
//! the count plus one.
//!
//! The functions here are the pure heart of the protocol: they say what
//! the rewritten record set and the next id are. The caller deletes the
//! old rows and inserts the rewritten ones; that delete-then-reinsert
//! sequence is not atomic, so a crash between the steps can lose rows.

use vstd::prelude::*;
use crate::manager::RecordManager;
use crate::record::Record;

verus! {

/// Whether some record in the sequence carries the id `k`.
pub open spec fn has_id(s: Seq<Record>, k: int) -> bool {
    exists|i: int| 0 <= i < s.len() && (#[trigger] s[i]).id == k
}

/// The records with their ids replaced by `1, 2, 3, …` in order; every
/// other field is kept.
pub open spec fn spec_renumber(s: Seq<Record>) -> Seq<Record> {
    Seq::new(s.len(), |i: int| Record { id: (i + 1) as i32, ..s[i] })
}

/// Rewrites the ids of the loaded records to the dense sequence
/// `1 ..= N`, keeping order and every other field.
pub fn renumber(records: Vec<Record>) -> (r: Vec<Record>)
    requires
        records@.len() < i32::MAX as nat,
    ensures
        r@ == spec_renumber(records@),
        r@.len() == records@.len(),
{
    let n = records.len();
    let mut r: Vec<Record> = Vec::new();
    let mut i: usize = 0;
    while i < n
        invariant
            i <= n,
            n == records@.len(),
            n < i32::MAX as nat,
            r@ =~= spec_renumber(records@).take(i as int),
        decreases n - i,
    {
        let mut rec = records[i];
        rec.id = (i + 1) as i32;
        r.push(rec);
        proof {
            assert(r@ =~= spec_renumber(records@).take(i + 1));
        }
        i = i + 1;
    }
    proof {
        assert(spec_renumber(records@).take(n as int) =~= spec_renumber(records@));
    }
    r
}

/// The next free id once the id space is dense: the record count plus
/// one.
///
/// Valid only right after a renumbering pass, which is why every insert
/// renumbers first.
pub fn next_id(manager: &RecordManager) -> (r: i32)
    requires
        manager@.len() + 1 <= i32::MAX as nat,
    ensures
        r == manager@.len() + 1,
{
    let all = manager.get_all();
    let n = all.len();
    (n + 1) as i32
}

/// After renumbering `N` records the ids are exactly `1 ..= N`: position
/// `i` holds id `i + 1`, every id in `1 ..= N` occurs, none occurs
/// twice, and every other field is kept.
pub proof fn lemma_renumber_dense(s: Seq<Record>)
    requires
        s.len() < i32::MAX as nat,
    ensures
        spec_renumber(s).len() == s.len(),
        forall|i: int|
            0 <= i < s.len() ==> (#[trigger] spec_renumber(s)[i]).id == i + 1,
        forall|i: int|
            0 <= i < s.len() ==> (#[trigger] spec_renumber(s)[i]) == (Record {
                id: (i + 1) as i32,
                ..s[i]
            }),
        forall|k: int| 1 <= k <= s.len() ==> #[trigger] has_id(spec_renumber(s), k),
        forall|k: int| #[trigger] has_id(spec_renumber(s), k) ==> 1 <= k <= s.len(),
        forall|i: int, j: int|
            0 <= i < s.len() && 0 <= j < s.len() && i != j ==> spec_renumber(s)[i].id
                != spec_renumber(s)[j].id,
{
    assert forall|k: int| 1 <= k <= s.len() implies #[trigger] has_id(spec_renumber(s), k) by {
        assert(spec_renumber(s)[k - 1].id == k);
    }
}

/// The next id issued after renumbering `N` records is `N + 1`.
pub proof fn lemma_next_id_after_renumber(s: Seq<Record>)
    ensures
        spec_renumber(s).len() + 1 == s.len() + 1,
{
}

} // verus!
