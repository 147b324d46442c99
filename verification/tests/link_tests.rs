use autd3_simulator::link::{
    copy_commands, decode_commands, decode_statuses, encode_commands, encode_statuses,
    neutral_commands, RxStatus, TxCommand, RX_RECORD_SIZE, TX_RECORD_SIZE,
};

fn patterned(seed: u8) -> Vec<u8> {
    (0..TX_RECORD_SIZE).map(|n| (n as u8).wrapping_mul(7).wrapping_add(seed)).collect()
}

#[test]
fn record_sizes_are_those_of_the_device_link() {
    assert_eq!(TX_RECORD_SIZE, std::mem::size_of::<autd3_core::link::TxMessage>());
    assert_eq!(RX_RECORD_SIZE, std::mem::size_of::<autd3_core::link::RxMessage>());
    assert_eq!(TX_RECORD_SIZE, autd3_core::ethercat::EC_OUTPUT_FRAME_SIZE);
    assert_eq!(RX_RECORD_SIZE, autd3_core::ethercat::EC_INPUT_FRAME_SIZE);
}

#[test]
fn neutral_command_is_all_zero() {
    let c = TxCommand::new();
    assert_eq!(c.as_bytes(), &[0u8; 626][..]);
}

#[test]
fn command_from_bytes_needs_the_exact_length() {
    let bytes = patterned(3);
    let c = TxCommand::from_bytes(&bytes).unwrap();
    assert_eq!(c.as_bytes(), &bytes[..]);
    assert!(TxCommand::from_bytes(&bytes[..625]).is_none());
    let mut longer = bytes.clone();
    longer.push(0);
    assert!(TxCommand::from_bytes(&longer).is_none());
    assert!(TxCommand::from_bytes(&[]).is_none());
}

#[test]
fn command_copies_are_equal() {
    let c = TxCommand::from_bytes(&patterned(9)).unwrap();
    assert_eq!(c.as_bytes(), &patterned(9)[..]);
    assert_eq!(c.duplicate(), c);
    assert_eq!(c.clone(), c);
}

#[test]
fn commands_are_concatenated_in_order() {
    let cmds = vec![
        TxCommand::from_bytes(&patterned(1)).unwrap(),
        TxCommand::from_bytes(&patterned(2)).unwrap(),
        TxCommand::new(),
    ];
    let bytes = encode_commands(&cmds);
    assert_eq!(bytes.len(), 3 * 626);
    assert_eq!(&bytes[..626], &patterned(1)[..]);
    assert_eq!(&bytes[626..1252], &patterned(2)[..]);
    assert_eq!(&bytes[1252..], &[0u8; 626][..]);
    assert_eq!(decode_commands(&bytes), Some(cmds));
}

#[test]
fn commands_need_a_whole_number_of_records() {
    assert_eq!(decode_commands(&[]), Some(Vec::new()));
    assert_eq!(decode_commands(&[0u8; 625]), None);
    assert_eq!(decode_commands(&[0u8; 627]), None);
    assert_eq!(decode_commands(&[0u8; 1252]).map(|c| c.len()), Some(2));
}

#[test]
fn neutral_batch_has_one_zero_record_for_each_device() {
    let cmds = neutral_commands(4);
    assert_eq!(cmds.len(), 4);
    for c in &cmds {
        assert_eq!(c.as_bytes(), &[0u8; 626][..]);
    }
    assert!(neutral_commands(0).is_empty());
}

#[test]
fn copy_of_commands_is_equal() {
    let cmds = vec![TxCommand::from_bytes(&patterned(5)).unwrap(), TxCommand::new()];
    assert_eq!(copy_commands(&cmds), cmds);
}

#[test]
fn statuses_are_data_then_ack() {
    let statuses = vec![RxStatus { data: 0x12, ack: 0x34 }, RxStatus { data: 0xFF, ack: 0x00 }];
    let bytes = encode_statuses(&statuses);
    assert_eq!(bytes, vec![0x12, 0x34, 0xFF, 0x00]);
    assert_eq!(decode_statuses(&bytes), Some(statuses));
    assert_eq!(decode_statuses(&[1, 2, 3]), None);
    assert_eq!(decode_statuses(&[]), Some(Vec::new()));
    assert_eq!(RxStatus::zero(), RxStatus { data: 0, ack: 0 });
}

#[test]
fn status_bytes_are_those_of_the_device_link() {
    let ack = autd3_core::link::Ack::new(0x05, 0x03);
    let rx = autd3_core::link::RxMessage::new(0x7A, ack);
    let status = RxStatus { data: rx.data(), ack: (rx.ack().err() << 4) | rx.ack().msg_id() };
    assert_eq!(encode_statuses(&[status]), vec![0x7A, 0x35]);
}

#[test]
fn status_is_made_of_its_parts() {
    let status = RxStatus::from_parts(0x7A, 0x05, 0x03);
    assert_eq!(status, RxStatus { data: 0x7A, ack: 0x35 });
    assert_eq!(status.msg_id(), 5);
    assert_eq!(status.err(), 3);
    assert_eq!(RxStatus::from_parts(0, 0xFF, 0), RxStatus { data: 0, ack: 0x0F });
    assert_eq!(RxStatus::from_parts(0, 0x10, 0x1F), RxStatus { data: 0, ack: 0xF0 });
    assert_eq!(RxStatus::zero().msg_id(), 0);
    assert_eq!(RxStatus::zero().err(), 0);
}

#[test]
fn status_parts_agree_with_the_device_link() {
    for msg_id in [0u8, 1, 7, 15, 16, 0x80, 0xFF] {
        for err in [0u8, 1, 2, 15, 16, 0xFF] {
            let ack = autd3_core::link::Ack::new(msg_id, err);
            let status = RxStatus::from_parts(9, msg_id, err);
            assert_eq!(status.msg_id(), ack.msg_id());
            assert_eq!(status.err(), ack.err());
        }
    }
}
