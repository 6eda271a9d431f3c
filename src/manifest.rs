//! The parsed header of a payload container, as plain values.

use vstd::prelude::*;

verus! {

/// One operation of a partition, as declared in the manifest: an optional
/// offset relative to the blob region and an optional data length.
#[derive(Clone, Copy, Debug, PartialEq, Eq)]
pub struct ManifestOperation {
    pub data_offset: Option<u64>,
    pub data_length: Option<u64>,
}

/// A named partition with its operations in manifest order.
#[derive(Clone, Debug)]
pub struct Partition {
    pub name: String,
    pub operations: Vec<ManifestOperation>,
}

/// The container header: where the blob region starts, and the partitions in
/// manifest order.
#[derive(Clone, Debug)]
pub struct ContainerHeader {
    pub blob_offset: u64,
    pub partitions: Vec<Partition>,
}

/// What an operation asks for once its declared fields have been checked.
#[derive(Clone, Copy, Debug, PartialEq, Eq)]
pub enum OperationKind {
    /// Copy `length` bytes found at `source_offset` within the blob region.
    CopyData { source_offset: u64, length: u64 },
    /// No source bytes: the operation is recorded but nothing is copied.
    ZeroOrDiscard,
}

impl ManifestOperation {
    /// A declared length comes with a declared offset.
    pub open spec fn is_consistent(self) -> bool {
        self.data_length is Some ==> self.data_offset is Some
    }

    /// The kind of a consistent operation.
    pub open spec fn kind_spec(self) -> OperationKind
        recommends
            self.is_consistent(),
    {
        match self.data_length {
            None => OperationKind::ZeroOrDiscard,
            Some(length) => OperationKind::CopyData { source_offset: self.data_offset->0, length },
        }
    }

    /// Turns the declared optional fields into an operation kind; `None` when
    /// a length is declared without an offset.
    pub fn kind(&self) -> (r: Option<OperationKind>)
        ensures
            r is Some <==> self.is_consistent(),
            r is Some ==> r->0 == self.kind_spec(),
    {
        match self.data_length {
            None => Some(OperationKind::ZeroOrDiscard),
            Some(length) => match self.data_offset {
                None => None,
                Some(source_offset) => Some(OperationKind::CopyData { source_offset, length }),
            },
        }
    }
}

impl ContainerHeader {
    /// The number of operations of partition `p`.
    pub open spec fn op_count(self, p: int) -> int {
        self.partitions@[p].operations@.len() as int
    }

    /// The operation at partition `p`, index `o`.
    pub open spec fn op_at(self, p: int, o: int) -> ManifestOperation {
        self.partitions@[p].operations@[o]
    }

    /// `(p, o)` names an operation of the manifest.
    pub open spec fn valid_position(self, p: int, o: int) -> bool {
        &&& 0 <= p < self.partitions@.len()
        &&& 0 <= o < self.op_count(p)
    }
}

/// Manifest order on positions: by partition, then by operation.
pub open spec fn precedes(a: (int, int), b: (int, int)) -> bool {
    a.0 < b.0 || (a.0 == b.0 && a.1 < b.1)
}

} // verus!
