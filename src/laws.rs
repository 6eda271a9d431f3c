//! Properties of a traversal that relate several calls or hold of every
//! state, stated over the driver's spec functions.

use vstd::prelude::*;
use crate::driver::{Action, DriveError, Driver, action_for};
use crate::manifest::{ContainerHeader, precedes};

verus! {

/// Operations are visited in manifest order: partition index first, then
/// operation index, each visited position strictly after the one before,
/// and every position visited names an operation of the manifest.
pub proof fn lemma_visited_in_manifest_order(d: &Driver)
    requires
        d.wf(),
    ensures
        forall|i: int, j: int|
            0 <= i < j < d.visited().len() ==> precedes(#[trigger] d.visited()[i], #[trigger] d.visited()[j]),
        forall|i: int|
            0 <= i < d.visited().len() ==> d.header_spec().valid_position(
                #[trigger] d.visited()[i].0,
                d.visited()[i].1,
            ),
{
    assert forall|i: int| 0 <= i < d.visited().len() implies d.header_spec().valid_position(
        #[trigger] d.visited()[i].0,
        d.visited()[i].1,
    ) by {
        assert(precedes(d.visited()[i], d.next()));
    }
}

/// A data operation is copied from its offset plus the blob offset, for
/// exactly its declared length.
pub proof fn lemma_copy_reads_resolved_range(h: ContainerHeader, p: int, o: int)
    requires
        h.valid_position(p, o),
        h.op_at(p, o).data_length is Some,
        h.op_at(p, o).data_offset is Some,
        h.op_at(p, o).data_offset->0 + h.blob_offset <= u64::MAX,
    ensures
        action_for(h, p, o) == Ok::<Action, DriveError>(Action::Copy {
            offset: (h.op_at(p, o).data_offset->0 + h.blob_offset) as u64,
            length: h.op_at(p, o).data_length->0,
        }),
{
}

/// A zero or discard operation reads nothing: it is skipped.
pub proof fn lemma_zero_or_discard_is_skipped(h: ContainerHeader, p: int, o: int)
    requires
        h.valid_position(p, o),
        h.op_at(p, o).data_length is None,
    ensures
        action_for(h, p, o) == Ok::<Action, DriveError>(Action::Skip),
{
}

/// An operation with a declared length and no declared offset fails with a
/// missing-offset error naming it, and is never copied.
pub proof fn lemma_missing_offset_fails(h: ContainerHeader, p: int, o: int)
    requires
        0 <= p <= usize::MAX,
        0 <= o <= usize::MAX,
        h.valid_position(p, o),
        h.op_at(p, o).data_length is Some,
        h.op_at(p, o).data_offset is None,
    ensures
        action_for(h, p, o) == Err::<Action, DriveError>(
            DriveError::MissingOffset { partition: p as usize, operation: o as usize },
        ),
{
}

/// Two strictly ordered sequences of positions that hold the same positions
/// are equal.
proof fn lemma_sorted_same_members_equal(a: Seq<(int, int)>, b: Seq<(int, int)>)
    requires
        forall|i: int, j: int| 0 <= i < j < a.len() ==> precedes(#[trigger] a[i], #[trigger] a[j]),
        forall|i: int, j: int| 0 <= i < j < b.len() ==> precedes(#[trigger] b[i], #[trigger] b[j]),
        forall|x: (int, int)| a.contains(x) <==> b.contains(x),
    ensures
        a == b,
    decreases a.len(),
{
    if a.len() == 0 {
        if b.len() > 0 {
            assert(b.contains(b[0]));
        }
        assert(a =~= b);
    } else {
        assert(a.contains(a[0]));
        let j = choose|j: int| 0 <= j < b.len() && b[j] == a[0];
        assert(b.contains(b[0]));
        let i = choose|i: int| 0 <= i < a.len() && a[i] == b[0];
        if j > 0 && i > 0 {
            assert(precedes(b[0], b[j]));
            assert(precedes(a[0], a[i]));
        } else if j > 0 {
            assert(precedes(b[0], b[j]));
        } else if i > 0 {
            assert(precedes(a[0], a[i]));
        }
        assert(a[0] == b[0]);
        let ta = a.drop_first();
        let tb = b.drop_first();
        assert forall|x: (int, int)| ta.contains(x) implies tb.contains(x) by {
            let k = choose|k: int| 0 <= k < ta.len() && ta[k] == x;
            assert(a[k + 1] == x);
            assert(a.contains(x));
            let m = choose|m: int| 0 <= m < b.len() && b[m] == x;
            assert(precedes(a[0], a[k + 1]));
            if m == 0 {
                assert(false);
            }
            assert(tb[m - 1] == x);
        }
        assert forall|x: (int, int)| tb.contains(x) implies ta.contains(x) by {
            let k = choose|k: int| 0 <= k < tb.len() && tb[k] == x;
            assert(b[k + 1] == x);
            assert(b.contains(x));
            let m = choose|m: int| 0 <= m < a.len() && a[m] == x;
            assert(precedes(b[0], b[k + 1]));
            if m == 0 {
                assert(false);
            }
            assert(ta[m - 1] == x);
        }
        assert forall|i: int, j: int| 0 <= i < j < ta.len() implies precedes(#[trigger] ta[i], #[trigger] ta[j]) by {
            assert(ta[i] == a[i + 1] && ta[j] == a[j + 1]);
        }
        assert forall|i: int, j: int| 0 <= i < j < tb.len() implies precedes(#[trigger] tb[i], #[trigger] tb[j]) by {
            assert(tb[i] == b[i + 1] && tb[j] == b[j + 1]);
        }
        lemma_sorted_same_members_equal(ta, tb);
        assert(a =~= seq![a[0]] + ta);
        assert(b =~= seq![b[0]] + tb);
    }
}

/// The traversal is determined by the header: two drivers over the same
/// header that expect the same next position have accepted the same
/// positions in the same order.
pub proof fn lemma_traversal_is_deterministic(d1: &Driver, d2: &Driver)
    requires
        d1.wf(),
        d2.wf(),
        d1.header_spec() == d2.header_spec(),
        d1.next() == d2.next(),
    ensures
        d1.visited() == d2.visited(),
{
    let a = d1.visited();
    let b = d2.visited();
    let h = d1.header_spec();
    assert forall|x: (int, int)| a.contains(x) <==> b.contains(x) by {
        if a.contains(x) {
            let i = choose|i: int| 0 <= i < a.len() && a[i] == x;
            assert(precedes(a[i], d1.next()));
            assert(h.valid_position(x.0, x.1));
            let j = choose|j: int| 0 <= j < b.len() && b[j] == (x.0, x.1);
            assert(b[j] == x);
        }
        if b.contains(x) {
            let i = choose|i: int| 0 <= i < b.len() && b[i] == x;
            assert(precedes(b[i], d2.next()));
            assert(h.valid_position(x.0, x.1));
            let j = choose|j: int| 0 <= j < a.len() && a[j] == (x.0, x.1);
            assert(a[j] == x);
        }
    }
    lemma_sorted_same_members_equal(a, b);
}

} // verus!
