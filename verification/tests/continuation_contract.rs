use nulang::content_identity::SemanticId;
use nulang::continuation_contract::{
    ContinuationBoundary, ContinuationCompatibilityError, ContinuationContract,
    ContinuationLayoutId, ContinuationPointId, PortableContinuationDecodeError,
    PortableContinuationMetadata, WIRE_LEN,
};

fn semantic(bytes: &[u8]) -> SemanticId {
    SemanticId::from_canonical_bytes(bytes, &vec![])
}

fn contract(code: &[u8], layout: &[u8]) -> ContinuationContract {
    let point = ContinuationPointId::derive(
        "payments.OrderWorkflow",
        "charge",
        ContinuationBoundary::Effect,
        0,
    );
    ContinuationContract {
        code_semantic_id: semantic(code),
        point_id: point,
        layout_id: ContinuationLayoutId::derive(point, "Result<Receipt, Error>", layout),
    }
}

#[test]
fn logical_point_excludes_backend_and_whole_program_identity() {
    let first = ContinuationPointId::derive(
        "payments.OrderWorkflow",
        "charge",
        ContinuationBoundary::Effect,
        0,
    );
    let same = ContinuationPointId::derive(
        "payments.OrderWorkflow",
        "charge",
        ContinuationBoundary::Effect,
        0,
    );
    let later = ContinuationPointId::derive(
        "payments.OrderWorkflow",
        "charge",
        ContinuationBoundary::Effect,
        1,
    );
    assert_eq!(first, same);
    assert_ne!(first, later);
}

#[test]
fn code_patch_can_resume_when_point_and_layout_are_unchanged() {
    let captured = contract(b"old-code", b"amount:Int;order:OrderId");
    let replacement = contract(b"new-code", b"amount:Int;order:OrderId");
    assert_ne!(captured.code_semantic_id, replacement.code_semantic_id);
    assert_eq!(captured.check_resume_compatibility(&replacement), Ok(()));
}

#[test]
fn changed_live_layout_fails_closed() {
    let captured = contract(b"old-code", b"amount:Int");
    let replacement = contract(b"new-code", b"amount:Int;currency:String");
    assert_eq!(
        captured.check_resume_compatibility(&replacement),
        Err(ContinuationCompatibilityError::LayoutChanged)
    );
}

#[test]
fn moved_logical_suspension_site_fails_closed() {
    let captured = contract(b"old-code", b"amount:Int");
    let point = ContinuationPointId::derive(
        "payments.OrderWorkflow",
        "charge",
        ContinuationBoundary::Effect,
        1,
    );
    let replacement = ContinuationContract {
        code_semantic_id: semantic(b"new-code"),
        point_id: point,
        layout_id: ContinuationLayoutId::derive(point, "Result<Receipt, Error>", b"amount:Int"),
    };
    assert_eq!(
        captured.check_resume_compatibility(&replacement),
        Err(ContinuationCompatibilityError::PointChanged)
    );
}

#[test]
fn portable_metadata_round_trips_without_vm_or_native_state() {
    let metadata = PortableContinuationMetadata {
        contract: contract(b"code", b"amount:Int"),
        activation_sequence: 17,
        message_sequence: 44,
        effect_cursor: 3,
    };
    let bytes = metadata.encode();
    assert_eq!(bytes.len(), WIRE_LEN);
    assert_eq!(PortableContinuationMetadata::decode(&bytes).unwrap(), metadata);
}

#[test]
fn portable_metadata_rejects_unknown_versions_and_trailing_bytes() {
    let metadata = PortableContinuationMetadata {
        contract: contract(b"code", b"amount:Int"),
        activation_sequence: 1,
        message_sequence: 2,
        effect_cursor: 0,
    };
    let mut bytes = metadata.encode();
    bytes[4..6].copy_from_slice(&2u16.to_be_bytes());
    assert_eq!(
        PortableContinuationMetadata::decode(&bytes),
        Err(PortableContinuationDecodeError::UnsupportedVersion { actual: 2 })
    );

    let mut oversized = metadata.encode().to_vec();
    oversized.push(0);
    assert_eq!(
        PortableContinuationMetadata::decode(&oversized),
        Err(PortableContinuationDecodeError::InvalidLength {
            actual: WIRE_LEN + 1
        })
    );
}

#[test]
fn foreign_metadata_is_not_decoded() {
    let metadata = PortableContinuationMetadata {
        contract: contract(b"code", b"amount:Int"),
        activation_sequence: 1,
        message_sequence: 2,
        effect_cursor: 0,
    };
    let mut bytes = metadata.encode();
    bytes[0] ^= 1;
    assert_eq!(
        PortableContinuationMetadata::decode(&bytes),
        Err(PortableContinuationDecodeError::InvalidMagic)
    );
}

#[test]
fn every_boundary_gives_another_point() {
    let all = [
        ContinuationBoundary::Effect,
        ContinuationBoundary::Receive,
        ContinuationBoundary::Await,
        ContinuationBoundary::Timer,
        ContinuationBoundary::WorkflowCheckpoint,
        ContinuationBoundary::DebugSafepoint,
    ];
    for (i, a) in all.iter().enumerate() {
        for b in &all[i + 1..] {
            assert_ne!(
                ContinuationPointId::derive("d", "c", *a, 0),
                ContinuationPointId::derive("d", "c", *b, 0)
            );
        }
    }
}
