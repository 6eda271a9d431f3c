use payload_resign::driver::{resolve_operation, Action, DriveError, Driver};
use payload_resign::manifest::{ContainerHeader, ManifestOperation, OperationKind, Partition};
use payload_resign::passphrase::{choose_passphrase_origin, ConflictingPassphraseSources, PassphraseOrigin};

fn copy_op(offset: u64, length: u64) -> ManifestOperation {
    ManifestOperation { data_offset: Some(offset), data_length: Some(length) }
}

fn zero_op() -> ManifestOperation {
    ManifestOperation { data_offset: None, data_length: None }
}

fn partition(name: &str, operations: Vec<ManifestOperation>) -> Partition {
    Partition { name: name.to_string(), operations }
}

fn boot_vendor_header() -> ContainerHeader {
    ContainerHeader {
        blob_offset: 4096,
        partitions: vec![
            partition("boot", vec![copy_op(0, 16)]),
            partition("vendor", vec![zero_op()]),
        ],
    }
}

#[test]
fn boot_and_vendor_traversal() {
    let mut d = Driver::new(boot_vendor_header());
    assert_eq!(d.on_operation(0, 0), Ok(Action::Copy { offset: 4096, length: 16 }));
    assert_eq!(d.on_operation(1, 0), Ok(Action::Skip));
    assert_eq!(d.finish(), Ok(()));
    assert_eq!(d.header().partitions[0].name, "boot");
    assert_eq!(d.header().partitions[1].name, "vendor");
}

#[test]
fn copy_offset_is_relative_to_blob_region() {
    let op = copy_op(5, 16);
    assert_eq!(resolve_operation(&op, 100, 0, 0), Ok(Action::Copy { offset: 105, length: 16 }));
    assert_eq!(resolve_operation(&op, 0, 0, 0), Ok(Action::Copy { offset: 5, length: 16 }));
}

#[test]
fn zero_or_discard_reads_nothing() {
    assert_eq!(resolve_operation(&zero_op(), 100, 3, 4), Ok(Action::Skip));
    // An offset without a length still copies nothing.
    let op = ManifestOperation { data_offset: Some(7), data_length: None };
    assert_eq!(resolve_operation(&op, 100, 3, 4), Ok(Action::Skip));
}

#[test]
fn missing_offset_fails_and_blocks_later_operations() {
    let header = ContainerHeader {
        blob_offset: 10,
        partitions: vec![
            partition("a", vec![copy_op(0, 4), ManifestOperation { data_offset: None, data_length: Some(8) }]),
            partition("b", vec![copy_op(4, 4)]),
        ],
    };
    let mut d = Driver::new(header);
    assert_eq!(d.on_operation(0, 0), Ok(Action::Copy { offset: 10, length: 4 }));
    assert_eq!(d.on_operation(0, 1), Err(DriveError::MissingOffset { partition: 0, operation: 1 }));
    assert_eq!(d.on_operation(1, 0), Err(DriveError::OutOfOrder { partition: 1, operation: 0 }));
    assert_eq!(d.on_operation(0, 1), Err(DriveError::MissingOffset { partition: 0, operation: 1 }));
    assert_eq!(d.finish(), Err(DriveError::Unvisited { partition: 0, operation: 1 }));
}

#[test]
fn offset_overflow_is_reported() {
    let op = copy_op(u64::MAX, 1);
    assert_eq!(resolve_operation(&op, 1, 2, 3), Err(DriveError::OffsetOverflow { partition: 2, operation: 3 }));
    assert_eq!(resolve_operation(&op, 0, 2, 3), Ok(Action::Copy { offset: u64::MAX, length: 1 }));
}

#[test]
fn positions_must_follow_manifest_order() {
    let mut d = Driver::new(boot_vendor_header());
    assert_eq!(d.on_operation(1, 0), Err(DriveError::OutOfOrder { partition: 1, operation: 0 }));
    assert_eq!(d.on_operation(0, 1), Err(DriveError::OutOfOrder { partition: 0, operation: 1 }));
    assert_eq!(d.on_operation(0, 0), Ok(Action::Copy { offset: 4096, length: 16 }));
    assert_eq!(d.on_operation(0, 0), Err(DriveError::OutOfOrder { partition: 0, operation: 0 }));
    assert_eq!(d.on_operation(1, 0), Ok(Action::Skip));
    assert_eq!(d.on_operation(2, 0), Err(DriveError::OutOfOrder { partition: 2, operation: 0 }));
    assert_eq!(d.finish(), Ok(()));
}

#[test]
fn empty_partitions_are_passed_over() {
    let header = ContainerHeader {
        blob_offset: 0,
        partitions: vec![
            partition("a", vec![]),
            partition("b", vec![copy_op(0, 2), zero_op()]),
            partition("c", vec![]),
            partition("d", vec![]),
            partition("e", vec![copy_op(2, 3)]),
            partition("f", vec![]),
        ],
    };
    let mut d = Driver::new(header);
    assert_eq!(d.on_operation(0, 0), Err(DriveError::OutOfOrder { partition: 0, operation: 0 }));
    assert_eq!(d.finish(), Err(DriveError::Unvisited { partition: 1, operation: 0 }));
    assert_eq!(d.on_operation(1, 0), Ok(Action::Copy { offset: 0, length: 2 }));
    assert_eq!(d.on_operation(1, 1), Ok(Action::Skip));
    assert_eq!(d.finish(), Err(DriveError::Unvisited { partition: 4, operation: 0 }));
    assert_eq!(d.on_operation(2, 0), Err(DriveError::OutOfOrder { partition: 2, operation: 0 }));
    assert_eq!(d.on_operation(4, 0), Ok(Action::Copy { offset: 2, length: 3 }));
    assert_eq!(d.finish(), Ok(()));
}

#[test]
fn empty_manifest_finishes_at_once() {
    let mut d = Driver::new(ContainerHeader { blob_offset: 64, partitions: vec![] });
    assert_eq!(d.finish(), Ok(()));
    assert_eq!(d.on_operation(0, 0), Err(DriveError::OutOfOrder { partition: 0, operation: 0 }));
    let d2 = Driver::new(ContainerHeader { blob_offset: 64, partitions: vec![partition("x", vec![])] });
    assert_eq!(d2.finish(), Ok(()));
}

#[test]
fn same_header_gives_same_actions() {
    let run = || {
        let mut d = Driver::new(boot_vendor_header());
        vec![d.on_operation(0, 0), d.on_operation(1, 0)]
    };
    assert_eq!(run(), run());
}

#[test]
fn operation_kind_requires_offset_with_length() {
    assert_eq!(copy_op(3, 9).kind(), Some(OperationKind::CopyData { source_offset: 3, length: 9 }));
    assert_eq!(zero_op().kind(), Some(OperationKind::ZeroOrDiscard));
    let bad = ManifestOperation { data_offset: None, data_length: Some(1) };
    assert_eq!(bad.kind(), None);
}

#[test]
fn passphrase_origin_choice() {
    assert_eq!(choose_passphrase_origin(true, false), Ok(PassphraseOrigin::EnvVar));
    assert_eq!(choose_passphrase_origin(false, true), Ok(PassphraseOrigin::File));
    assert_eq!(choose_passphrase_origin(false, false), Ok(PassphraseOrigin::Prompt));
    assert_eq!(choose_passphrase_origin(true, true), Err(ConflictingPassphraseSources));
}
