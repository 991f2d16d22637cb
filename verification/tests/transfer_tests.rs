use deskpi::transfer::{
    image_records, ImageTransfer, TransferAction, TransferEvent, TransferPhase,
};

#[test]
fn records_carry_offset_length_and_padded_data() {
    let data: Vec<u8> = vec![1, 2, 3, 4, 5];
    let records = image_records(&data, 4);
    assert_eq!(records.len(), 2);
    assert_eq!(records[0], vec![0, 0, 4, 1, 2, 3, 4]);
    // The short final record is padded to the block size, with the
    // length byte naming the true payload size.
    assert_eq!(records[1], vec![4, 0, 1, 5, 0, 0, 0]);
}

#[test]
fn record_offsets_are_little_endian() {
    let data: Vec<u8> = vec![0; 600];
    let records = image_records(&data, 250);
    assert_eq!(records.len(), 3);
    assert_eq!(&records[1][0..3], &[250, 0, 250]);
    // Offset 500 = 0x01F4, low byte first.
    assert_eq!(&records[2][0..3], &[0xF4, 0x01, 100]);
}

#[test]
fn record_payloads_reconstruct_the_image() {
    let data: Vec<u8> = (0..=255u8).cycle().take(700).collect();
    let records = image_records(&data, 250);
    let mut rebuilt: Vec<u8> = Vec::new();
    for record in &records {
        let length = record[2] as usize;
        rebuilt.extend_from_slice(&record[3..3 + length]);
    }
    assert_eq!(rebuilt, data);
}

#[test]
fn transfer_acknowledges_every_record_before_the_next() {
    let data: Vec<u8> = vec![9; 5];
    let records = image_records(&data, 4);
    let mut transfer = ImageTransfer::new(&data, 4);
    assert!(transfer.phase() == TransferPhase::AwaitStartAck);
    match transfer.step(TransferEvent::Ack) {
        TransferAction::WriteRecord(rec) => assert_eq!(rec, records[0]),
        _ => panic!("expected the first record after the start ack"),
    }
    match transfer.step(TransferEvent::Ack) {
        TransferAction::WriteRecord(rec) => assert_eq!(rec, records[1]),
        _ => panic!("expected the second record after the first ack"),
    }
    assert!(matches!(transfer.step(TransferEvent::Ack), TransferAction::WriteRefresh));
    assert!(matches!(transfer.step(TransferEvent::Ack), TransferAction::Succeed));
    assert!(transfer.phase() == TransferPhase::Done);
}

#[test]
fn transfer_of_empty_image_still_refreshes() {
    let data: Vec<u8> = Vec::new();
    let mut transfer = ImageTransfer::new(&data, 128);
    assert!(matches!(transfer.step(TransferEvent::Ack), TransferAction::WriteRefresh));
    assert!(matches!(transfer.step(TransferEvent::Ack), TransferAction::Succeed));
}

#[test]
fn transfer_failure_aborts_whole_operation() {
    let data: Vec<u8> = vec![1, 2, 3];
    let mut transfer = ImageTransfer::new(&data, 2);
    transfer.step(TransferEvent::Ack);
    assert!(matches!(transfer.step(TransferEvent::Failure), TransferAction::Fail));
    assert!(transfer.phase() == TransferPhase::Failed);
}
