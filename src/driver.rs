//! The operation driver: it follows the resigning writer's walk through the
//! manifest, checks that each reported position is the next one in manifest
//! order, and says for each operation whether to copy and from where.

use vstd::prelude::*;
use crate::manifest::{ContainerHeader, ManifestOperation, OperationKind, precedes};

verus! {

/// What to do for the operation the writer has just begun.
#[derive(Clone, Copy, Debug, PartialEq, Eq)]
pub enum Action {
    /// Nothing to read: a zero or discard operation.
    Skip,
    /// Seek the source to the absolute `offset` and copy exactly `length`
    /// bytes into the writer.
    Copy { offset: u64, length: u64 },
}

/// Why the traversal fails.
#[derive(Clone, Copy, Debug, PartialEq, Eq)]
pub enum DriveError {
    /// The writer reported a position that is not the next operation in
    /// manifest order (or names no operation at all).
    OutOfOrder { partition: usize, operation: usize },
    /// The operation declares a data length but no data offset.
    MissingOffset { partition: usize, operation: usize },
    /// The operation's offset plus the blob offset does not fit in 64 bits.
    OffsetOverflow { partition: usize, operation: usize },
    /// The writer ran out of operations before this one was visited.
    Unvisited { partition: usize, operation: usize },
}

/// What operation `op` of partition `p`, index `o`, calls for, given where
/// the blob region starts.
pub open spec fn resolved(op: ManifestOperation, blob_offset: u64, p: usize, o: usize) -> Result<
    Action,
    DriveError,
> {
    match op.data_length {
        None => Ok(Action::Skip),
        Some(length) => match op.data_offset {
            None => Err(DriveError::MissingOffset { partition: p, operation: o }),
            Some(rel) => if rel + blob_offset <= u64::MAX {
                Ok(Action::Copy { offset: (rel + blob_offset) as u64, length })
            } else {
                Err(DriveError::OffsetOverflow { partition: p, operation: o })
            },
        },
    }
}

/// What the operation at `(p, o)` of `h` calls for.
pub open spec fn action_for(h: ContainerHeader, p: int, o: int) -> Result<Action, DriveError> {
    resolved(h.op_at(p, o), h.blob_offset, p as usize, o as usize)
}

/// Resolves the operation `op` of partition `p`, index `o`, against the blob
/// offset: a zero or discard operation is skipped; a data operation is copied
/// from its offset plus `blob_offset`, and fails when it has no offset or the
/// sum does not fit in 64 bits.
pub fn resolve_operation(op: &ManifestOperation, blob_offset: u64, p: usize, o: usize) -> (r: Result<
    Action,
    DriveError,
>)
    ensures
        r == resolved(*op, blob_offset, p, o),
{
    match op.kind() {
        None => Err(DriveError::MissingOffset { partition: p, operation: o }),
        Some(OperationKind::ZeroOrDiscard) => Ok(Action::Skip),
        Some(OperationKind::CopyData { source_offset, length }) => match source_offset.checked_add(blob_offset) {
            Some(offset) => Ok(Action::Copy { offset, length }),
            None => Err(DriveError::OffsetOverflow { partition: p, operation: o }),
        },
    }
}

/// Follows one traversal of a container's manifest.
pub struct Driver {
    header: ContainerHeader,
    next_partition: usize,
    next_operation: usize,
    visited: Ghost<Seq<(int, int)>>,
}

impl Driver {
    /// The header being traversed.
    pub closed spec fn header_spec(&self) -> ContainerHeader {
        self.header
    }

    /// The position expected next; `(partitions.len(), 0)` once every
    /// operation has been visited.
    pub closed spec fn next(&self) -> (int, int) {
        (self.next_partition as int, self.next_operation as int)
    }

    /// The positions accepted so far, in the order they were accepted.
    pub closed spec fn visited(&self) -> Seq<(int, int)> {
        self.visited@
    }

    /// Every valid position, and only those, before the expected next one
    /// has been visited, in manifest order.
    pub open spec fn wf(&self) -> bool {
        let h = self.header_spec();
        let n = self.next();
        let v = self.visited();
        &&& 0 <= n.0 <= h.partitions@.len()
        &&& n.0 < h.partitions@.len() ==> 0 <= n.1 < h.op_count(n.0)
        &&& n.0 == h.partitions@.len() ==> n.1 == 0
        &&& forall|i: int, j: int| 0 <= i < j < v.len() ==> precedes(#[trigger] v[i], #[trigger] v[j])
        &&& forall|i: int| 0 <= i < v.len() ==> h.valid_position(v[i].0, v[i].1)
            && precedes(#[trigger] v[i], n)
        &&& forall|p: int, o: int| #[trigger] h.valid_position(p, o) && precedes((p, o), n)
            ==> exists|i: int| 0 <= i < v.len() && v[i] == (p, o)
    }

    /// Every operation of the manifest has been visited.
    pub open spec fn is_complete(&self) -> bool {
        self.next().0 == self.header_spec().partitions@.len()
    }

    /// The first partition at or after `p` that has operations, or the number
    /// of partitions if there is none.
    fn first_nonempty_from(header: &ContainerHeader, p: usize) -> (r: usize)
        requires
            p <= header.partitions@.len(),
        ensures
            p <= r <= header.partitions@.len(),
            r < header.partitions@.len() ==> header.op_count(r as int) > 0,
            forall|q: int| p <= q < r ==> header.op_count(q) == 0,
    {
        let mut r: usize = p;
        while r < header.partitions.len() && header.partitions[r].operations.len() == 0
            invariant
                p <= r <= header.partitions@.len(),
                forall|q: int| p <= q < r ==> header.op_count(q) == 0,
            decreases header.partitions@.len() - r,
        {
            r = r + 1;
        }
        r
    }

    /// Starts a traversal of `header`, expecting its first operation.
    pub fn new(header: ContainerHeader) -> (d: Self)
        ensures
            d.wf(),
            d.header_spec() == header,
            d.visited() == Seq::<(int, int)>::empty(),
    {
        let first = Self::first_nonempty_from(&header, 0);
        let d = Driver { header, next_partition: first, next_operation: 0, visited: Ghost(Seq::empty()) };
        assert forall|p: int, o: int| #[trigger] d.header.valid_position(p, o) implies !precedes(
            (p, o),
            d.next(),
        ) by {
            if p < first as int {
                assert(d.header.op_count(p) == 0);
            }
        }
        d
    }

    /// Handles the writer's report that it has begun the operation at
    /// partition `p`, index `o`. The position must be the next one in
    /// manifest order; the operation must then resolve. On success the
    /// position is recorded and the traversal moves on; on failure nothing
    /// changes.
    pub fn on_operation(&mut self, p: usize, o: usize) -> (r: Result<Action, DriveError>)
        requires
            old(self).wf(),
        ensures
            final(self).wf(),
            final(self).header_spec() == old(self).header_spec(),
            (p as int, o as int) != old(self).next() || old(self).is_complete() ==> r == Err::<
                Action,
                DriveError,
            >(DriveError::OutOfOrder { partition: p, operation: o }),
            (p as int, o as int) == old(self).next() && !old(self).is_complete() ==> r
                == action_for(old(self).header_spec(), p as int, o as int),
            r is Ok ==> {
                &&& final(self).visited() == old(self).visited().push((p as int, o as int))
                &&& precedes(old(self).next(), final(self).next())
                &&& forall|q: (int, int)| precedes(old(self).next(), q) && precedes(q, final(self).next())
                    ==> !old(self).header_spec().valid_position(q.0, q.1)
            },
            r is Err ==> *final(self) == *old(self),
    {
        if p != self.next_partition || o != self.next_operation
            || self.next_partition >= self.header.partitions.len() {
            return Err(DriveError::OutOfOrder { partition: p, operation: o });
        }
        let action = resolve_operation(&self.header.partitions[p].operations[o], self.header.blob_offset, p, o);
        if action.is_err() {
            return action;
        }
        let ghost old_next = self.next();
        let ghost h = self.header;
        let ghost v0 = self.visited@;
        assert(v0 == old(self).visited() && old_next == old(self).next() && h == old(self).header_spec());
        let count = self.header.partitions[p].operations.len();
        if o < count - 1 {
            self.next_operation = o + 1;
        } else {
            self.next_partition = Self::first_nonempty_from(&self.header, p + 1);
            self.next_operation = 0;
        }
        self.visited = Ghost(v0.push((p as int, o as int)));
        let ghost v = self.visited@;
        assert(precedes(old_next, self.next()));
        assert forall|i: int, j: int| 0 <= i < j < v.len() implies precedes(#[trigger] v[i], #[trigger] v[j]) by {
            if j == v0.len() {
                assert(v[i] == v0[i]);
                assert(v[j] == old_next);
            } else {
                assert(v[i] == v0[i] && v[j] == v0[j]);
            }
        }
        assert forall|i: int| 0 <= i < v.len() implies h.valid_position(v[i].0, v[i].1)
            && precedes(#[trigger] v[i], self.next()) by {
            if i < v0.len() {
                assert(v[i] == v0[i]);
            } else {
                assert(v[i] == old_next);
                assert(h.valid_position(p as int, o as int));
            }
        }
        assert forall|q: (int, int)| precedes(old_next, q) && precedes(q, self.next()) implies !h.valid_position(
            q.0,
            q.1,
        ) by {
            if q.0 > p as int && q.0 < self.next_partition as int {
                assert(h.op_count(q.0) == 0);
            }
        }
        assert forall|a: int, b: int| #[trigger] h.valid_position(a, b) && precedes((a, b), self.next()) implies exists|i: int|
            0 <= i < v.len() && v[i] == (a, b) by {
            if precedes((a, b), old_next) {
                let i = choose|i: int| 0 <= i < v0.len() && v0[i] == (a, b);
                assert(v[i] == (a, b));
            } else {
                if (a, b) != old_next {
                    assert(precedes(old_next, (a, b)));
                }
                assert(v[v0.len() as int] == (a, b));
            }
        }
        action
    }

    /// Handles the writer's report that no operation remains: succeeds exactly
    /// when every operation of the manifest has been visited, and otherwise
    /// names the first one that was not.
    pub fn finish(&self) -> (r: Result<(), DriveError>)
        requires
            self.wf(),
        ensures
            r is Ok <==> self.is_complete(),
            r is Err ==> r == Err::<(), DriveError>(DriveError::Unvisited {
                partition: self.next().0 as usize,
                operation: self.next().1 as usize,
            }),
            r is Ok ==> forall|p: int, o: int| #[trigger] self.header_spec().valid_position(p, o)
                ==> exists|i: int| 0 <= i < self.visited().len() && self.visited()[i] == (p, o),
    {
        if self.next_partition < self.header.partitions.len() {
            Err(DriveError::Unvisited { partition: self.next_partition, operation: self.next_operation })
        } else {
            assert forall|p: int, o: int| #[trigger] self.header_spec().valid_position(p, o) implies exists|i: int|
                0 <= i < self.visited().len() && self.visited()[i] == (p, o) by {
                assert(precedes((p, o), self.next()));
            }
            Ok(())
        }
    }

    /// The header being traversed.
    pub fn header(&self) -> (h: &ContainerHeader)
        ensures
            *h == self.header_spec(),
    {
        &self.header
    }
}

} // verus!
