use lan_cat::transfer::protocol::{
    validate_manifest, FileManifest, ManifestError, TransferMessage, CHUNK_BYTES,
};
use lan_cat::transfer::sender::{Failure, Next, Sender};
use lan_cat::transfer::{
    id_to_text, part_dir_name, part_name, Direction, InspectError, Inspection, Manager, Plan,
    TransferError, TransferState,
};

fn manifest(name: &str, size: u64) -> FileManifest {
    FileManifest { name: name.into(), size }
}

#[test]
fn validates_transfer_manifest() {
    let files = vec![
        FileManifest { name: "one.txt".into(), size: 4 },
        FileManifest { name: "two.txt".into(), size: 6 },
    ];
    assert!(validate_manifest(&files, 10).is_ok());
    assert!(validate_manifest(&files, 9).is_err());

    let mut invalid = files;
    invalid[1].name = "../two.txt".into();
    assert!(validate_manifest(&invalid, 10).is_err());
}

#[test]
fn manifest_faults() {
    assert_eq!(validate_manifest(&[], 0), Err(ManifestError::FileCount));
    let many: Vec<_> = (0..257).map(|i| manifest(&format!("f{i}"), 0)).collect();
    assert_eq!(validate_manifest(&many, 0), Err(ManifestError::FileCount));
    assert_eq!(validate_manifest(&many[..256], 0), Ok(()));
    assert_eq!(
        validate_manifest(&[manifest("a", 107_374_182_401)], 107_374_182_401),
        Err(ManifestError::TooLarge)
    );
    assert_eq!(validate_manifest(&[manifest("..", 0)], 0), Err(ManifestError::InvalidName));
    assert_eq!(
        validate_manifest(&[manifest("a", 1), manifest("a", 1)], 2),
        Err(ManifestError::DuplicateName(1))
    );
    assert_eq!(
        validate_manifest(&[manifest("a", u64::MAX), manifest("b", 1)], 0),
        Err(ManifestError::SizeOverflow)
    );
    assert_eq!(validate_manifest(&[manifest("a", 1)], 2), Err(ManifestError::SizeMismatch));
}

#[test]
fn names_of_parts() {
    assert_eq!(
        id_to_text(0x0123_4567_89ab_cdef_0011_2233_4455_6677),
        "01234567-89ab-cdef-0011-223344556677"
    );
    assert!(part_dir_name(1).contains("00000000-0000-0000-0000-000000000001"));
    assert!(part_name("report.txt").ends_with(".part"));
}

#[test]
fn files_are_inspected() {
    let mut inspection = Inspection::new();
    assert_eq!(inspection.inspect_path(b"/tmp/a.txt", true, 5), Ok(()));
    assert_eq!(inspection.files, vec![manifest("a.txt", 5)]);
    assert_eq!(inspection.total, 5);
    assert_eq!(inspection.inspect_path(b"/tmp", false, 0), Err(InspectError::NotRegular));
    assert_eq!(inspection.inspect_path(b"/tmp/..", true, 0), Err(InspectError::NameNotText));
    assert_eq!(
        inspection.inspect_path(b"/b", true, u64::MAX),
        Err(InspectError::SizeOverflow)
    );
}

/// Sends a file from one manager to another and returns what was written.
fn transfer(contents: &[u8]) -> (Vec<u8>, Manager, Manager, u128) {
    let mut a = Manager::new();
    let mut b = Manager::new();
    let size = contents.len() as u64;
    let (id, offer) = a
        .start("B", vec![manifest("report.txt", size)], size, vec![b"/src/report.txt".to_vec()])
        .unwrap();
    assert_eq!(offer.peer, "B");
    assert_eq!(
        b.handle("A", offer.message, Some(b"/downloads".to_vec()), &vec![]),
        Ok(Plan::LaunchReceiveUi { id })
    );
    let plan = b.plan_accept(id, &vec![false]).unwrap();
    assert_eq!(plan.names, vec!["report.txt"]);
    let response = b.accept(id, b"/downloads".to_vec(), b"/downloads/parts".to_vec()).unwrap();
    let mut written = Vec::new();
    let mut sender = Sender::new(id, 1);
    let mut signal = response.message;
    let mut offset: usize = 0;
    loop {
        let Ok(Plan::Signal { message, .. }) = a.handle("B", signal, None, &vec![]) else {
            panic!("no signal");
        };
        let mut answer = sender.answered(Some(message));
        if let Some(state) = answer.state {
            a.set_state(id, state).unwrap();
        }
        offset += answer.progress as usize;
        a.set_progress(id, answer.progress).unwrap();
        while let Next::Read { .. } = answer.next {
            let end = contents.len().min(offset + CHUNK_BYTES);
            answer.next = sender.read(contents[offset..end].to_vec());
        }
        match answer.next {
            Next::Send { message, .. } => {
                match b.handle("A", message, None, &vec![false]).unwrap() {
                    Plan::Write { id, file_index, name, offset, data, .. } => {
                        assert_eq!(name, "report.txt");
                        assert_eq!(offset as usize, written.len());
                        let len = data.len();
                        written.extend(data);
                        signal = b.written("A", id, file_index, offset, len).unwrap().message;
                    }
                    Plan::Finish { id, names, .. } => {
                        assert_eq!(names, vec!["report.txt"]);
                        signal = b.finished("A", id).unwrap().message;
                    }
                    other => panic!("{other:?}"),
                }
            }
            Next::Stop => return (written, a, b, id),
            other => panic!("{other:?}"),
        }
    }
}

#[test]
fn transfer_completes_with_acknowledgements() {
    let contents = vec![42_u8; CHUNK_BYTES * 2 + 17];
    let (written, a, b, id) = transfer(&contents);
    assert!(written == contents);
    assert_eq!(b.view(id).unwrap().state, TransferState::Completed);
    assert_eq!(b.view(id).unwrap().transferred_bytes, contents.len() as u64);
    assert_eq!(b.view(id).unwrap().direction, Direction::Receive);
    assert_eq!(a.view(id).unwrap().state, TransferState::Completed);
    assert_eq!(a.view(id).unwrap().transferred_bytes, contents.len() as u64);
    assert_eq!(a.views().len(), 1);
}

#[test]
fn empty_files_are_transferred() {
    let (written, _, b, id) = transfer(&[]);
    assert!(written.is_empty());
    assert_eq!(b.view(id).unwrap().state, TransferState::Completed);
}

fn offered() -> (Manager, u128) {
    let mut a = Manager::new();
    let mut b = Manager::new();
    let (id, offer) =
        a.start("B", vec![manifest("f", 3)], 3, vec![b"/f".to_vec()]).unwrap();
    b.handle("A", offer.message, Some(b"/d".to_vec()), &vec![]).unwrap();
    (b, id)
}

#[test]
fn transfers_are_refused_for_a_reason() {
    let (mut b, id) = offered();
    assert_eq!(b.plan_accept(id + 1, &vec![]), Err(TransferError::UnknownTransfer));
    assert_eq!(
        b.handle("C", TransferMessage::Complete { id }, None, &vec![false]),
        Err(TransferError::Incomplete)
    );
    assert_eq!(
        b.handle("C", TransferMessage::Cancel { id, reason: "x".into() }, None, &vec![false]),
        Err(TransferError::PeerMismatch)
    );
    let chunk = |data: Vec<u8>, offset| TransferMessage::Chunk { id, file_index: 0, offset, data };
    assert_eq!(b.handle("A", chunk(vec![1], 0), None, &vec![]), Err(TransferError::UnexpectedChunk));
    b.accept(id, b"/d".to_vec(), b"/d/p".to_vec()).unwrap();
    assert_eq!(b.plan_accept(id, &vec![false]), Err(TransferError::NotAwaitingAcceptance));
    assert_eq!(b.reject(id), Err(TransferError::NotAwaitingRejection));
    assert_eq!(
        b.handle("A", chunk(vec![0; CHUNK_BYTES + 1], 0), None, &vec![]),
        Err(TransferError::ChunkTooLarge)
    );
    assert_eq!(b.handle("A", chunk(vec![1], 1), None, &vec![]), Err(TransferError::InvalidOffset));
    assert_eq!(b.handle("A", chunk(vec![1; 4], 0), None, &vec![]), Err(TransferError::InvalidOffset));
    assert_eq!(
        b.handle(
            "A",
            TransferMessage::Chunk { id, file_index: 7, offset: 0, data: vec![1] },
            None,
            &vec![],
        ),
        Err(TransferError::InvalidFileIndex)
    );
    assert_eq!(
        b.handle("A", TransferMessage::Complete { id }, None, &vec![false]),
        Err(TransferError::Incomplete)
    );
    assert_eq!(
        b.handle("A", TransferMessage::Cancel { id, reason: "x".repeat(1025) }, None, &vec![false]),
        Err(TransferError::ReasonTooLong)
    );
    assert!(matches!(
        b.handle("A", TransferMessage::Cancel { id, reason: "stop".into() }, None, &vec![false]),
        Ok(Plan::End { .. })
    ));
    assert_eq!(b.view(id).unwrap().state, TransferState::Cancelled);
}

#[test]
fn offers_can_be_rejected_and_cancelled() {
    let (mut b, id) = offered();
    let rejection = b.reject(id).unwrap();
    assert_eq!(rejection.message, TransferMessage::Response { id, accepted: false });
    assert_eq!(b.view(id).unwrap().state, TransferState::Rejected);
    let mut sender = Sender::new(id, 1);
    let answer = sender.answered(Some(rejection.message));
    assert_eq!(answer.state, Some(TransferState::Rejected));
    assert_eq!(answer.next, Next::Stop);

    let (mut b, id) = offered();
    let ending = b.cancel(id).unwrap().unwrap();
    assert!(matches!(ending.outbound.message, TransferMessage::Cancel { .. }));
    assert_eq!(b.view(id).unwrap().state, TransferState::Cancelled);
}

#[test]
fn an_offer_cannot_replace_a_transfer() {
    let (mut b, id) = offered();
    let again = TransferMessage::Offer { id, files: vec![manifest("g", 1)], total_bytes: 1 };
    let _ = b.handle("A", again, Some(b"/d".to_vec()), &vec![]);
    assert_eq!(b.view(id).unwrap().files, vec![manifest("f", 3)]);
    let bad = TransferMessage::Offer { id: 5, files: vec![manifest("g", 1)], total_bytes: 2 };
    assert_eq!(
        b.handle("A", bad, Some(b"/d".to_vec()), &vec![]),
        Err(TransferError::Manifest(ManifestError::SizeMismatch))
    );
    assert_eq!(b.view(5), None);
}

#[test]
fn destinations_are_not_overwritten() {
    let (mut b, id) = offered();
    assert_eq!(b.check_free(id, &vec![false]), Ok(()));
    assert_eq!(b.check_free(id, &vec![true]), Err(TransferError::DestinationTaken(0)));
    assert_eq!(b.check_free(id, &vec![]), Err(TransferError::DestinationTaken(0)));
    assert_eq!(b.check_free(id + 1, &vec![false]), Err(TransferError::UnknownTransfer));
    assert_eq!(b.plan_accept(id, &vec![true]), Err(TransferError::DestinationTaken(0)));
    assert!(b.plan_accept(id, &vec![false]).is_ok());
    b.accept(id, b"/d".to_vec(), b"/d/p".to_vec()).unwrap();
    let chunk = TransferMessage::Chunk { id, file_index: 0, offset: 0, data: vec![7; 3] };
    assert!(matches!(b.handle("A", chunk, None, &vec![]), Ok(Plan::Write { .. })));
    b.written("A", id, 0, 0, 3).unwrap();
    assert_eq!(
        b.handle("A", TransferMessage::Complete { id }, None, &vec![true]),
        Err(TransferError::DestinationTaken(0))
    );
    assert_eq!(b.view(id).unwrap().state, TransferState::Transferring);
    assert!(matches!(
        b.handle("A", TransferMessage::Complete { id }, None, &vec![false]),
        Ok(Plan::Finish { .. })
    ));
}

#[test]
fn sent_chunks_are_limited() {
    let accepted = || TransferMessage::Response { id: 1, accepted: true };
    let mut sender = Sender::new(1, 1);
    sender.answered(Some(accepted()));
    let Next::Send { message: TransferMessage::Chunk { data, .. }, .. } =
        sender.read(vec![5; CHUNK_BYTES])
    else {
        panic!("no chunk");
    };
    assert_eq!(data.len(), CHUNK_BYTES);

    let mut sender = Sender::new(1, 1);
    sender.answered(Some(accepted()));
    assert_eq!(sender.read(vec![5; CHUNK_BYTES + 1]), Next::Fail(Failure::ChunkTooLarge));
    assert_eq!(Failure::ChunkTooLarge.describe(), "transfer chunk exceeds limit");
}

#[test]
fn transfers_have_random_identifiers() {
    let mut a = Manager::new();
    let mut ids = Vec::new();
    for _ in 0..3 {
        let (id, _) = a.start("B", vec![manifest("f", 3)], 3, vec![b"/f".to_vec()]).unwrap();
        assert_eq!((id >> 76) & 0xf, 4);
        assert_eq!((id >> 62) & 3, 2);
        assert!(!ids.contains(&id));
        ids.push(id);
    }
}

#[test]
fn silence_ends_a_transfer() {
    let mut sender = Sender::new(1, 1);
    let answer = sender.answered(None);
    assert_eq!(answer.next, Next::Fail(Failure::OfferTimedOut));
    assert_eq!(Failure::OfferTimedOut.describe(), "transfer offer timed out");
    assert_eq!(Failure::AckTimedOut.describe(), "transfer acknowledgement timed out");
    assert_eq!(Failure::CompletionTimedOut.describe(), "transfer completion timed out");
    assert_eq!(Failure::Ended("why".into()).describe(), "why");
}
