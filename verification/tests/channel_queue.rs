use crossbeam_channel::{unbounded, Receiver};
use slcanx::channel::{sent_result, Channel};
use slcanx::frame::CanFrame;
use slcanx::message::{Command, SlcanError};

fn raw(rx: &Receiver<Command>) -> (u8, String) {
    match rx.try_recv() {
        Ok(Command::SendRaw(ch, text)) => (ch, text),
        other => panic!("no raw text queued: {:?}", other),
    }
}

#[test]
fn data_bit_rate_of_seven_megabits_queues_its_text() {
    let (tx, rx) = unbounded();
    let channel = Channel::new(1, tx);
    assert!(channel.set_data_bitrate(7).is_ok());
    assert_eq!(raw(&rx), (1, "Y7".to_string()));
    assert!(rx.try_recv().is_err());
}

#[test]
fn data_bit_rate_outside_the_range_queues_nothing() {
    let (tx, rx) = unbounded();
    let channel = Channel::new(0, tx);
    assert!(matches!(channel.set_data_bitrate(7_000_000), Err(SlcanError::InvalidArgument)));
    assert!(rx.try_recv().is_err());
    assert!(matches!(channel.set_data_bitrate(16), Err(SlcanError::InvalidArgument)));
    assert!(rx.try_recv().is_err());
    assert!(matches!(channel.set_data_bitrate(0), Err(SlcanError::InvalidArgument)));
    assert!(matches!(channel.set_data_bitrate(1_000_000), Err(SlcanError::InvalidArgument)));
    assert!(matches!(channel.set_data_bitrate(u32::MAX), Err(SlcanError::InvalidArgument)));
    assert!(rx.try_recv().is_err());
}

#[test]
fn bit_rate_queues_index_or_number() {
    let (tx, rx) = unbounded();
    let channel = Channel::new(2, tx);
    channel.set_bitrate(500_000).unwrap();
    channel.set_bitrate(83_333).unwrap();
    assert_eq!(raw(&rx), (2, "S6".to_string()));
    assert_eq!(raw(&rx), (2, "y83333".to_string()));
}

#[test]
fn open_close_and_raw_text() {
    let (tx, rx) = unbounded();
    let channel = Channel::new(3, tx);
    assert_eq!(channel.id(), 3);
    channel.close().unwrap();
    channel.send_cmd("a80_4_31_8_8_0").unwrap();
    channel.open().unwrap();
    assert_eq!(raw(&rx), (3, "C".to_string()));
    assert_eq!(raw(&rx), (3, "a80_4_31_8_8_0".to_string()));
    assert_eq!(raw(&rx), (3, "O".to_string()));
    assert!(rx.try_recv().is_err());
}

#[test]
fn sample_points_are_queued_one_by_one() {
    let (tx, rx) = unbounded();
    let channel = Channel::new(0, tx);
    channel.set_sample_point(Some(800), Some(750)).unwrap();
    assert_eq!(raw(&rx), (0, "p800".to_string()));
    assert_eq!(raw(&rx), (0, "P750".to_string()));
    channel.set_sample_point(None, Some(875)).unwrap();
    assert_eq!(raw(&rx), (0, "P875".to_string()));
    channel.set_sample_point(None, None).unwrap();
    assert!(rx.try_recv().is_err());
}

#[test]
fn frame_is_queued_with_the_channel() {
    let (tx, rx) = unbounded();
    let channel = Channel::new(1, tx);
    channel.send(CanFrame::new_fd(0x123, &[0xAA; 64], true)).unwrap();
    match rx.try_recv() {
        Ok(Command::SendFrame(ch, frame)) => {
            assert_eq!(ch, 1);
            assert_eq!(frame.id, 0x123);
            assert!(frame.fd && frame.brs);
            assert_eq!(frame.data, vec![0xAA; 64]);
        },
        other => panic!("no frame queued: {:?}", other),
    }
}

#[test]
fn clones_share_the_queue_and_the_channel() {
    let (tx, rx) = unbounded();
    let channel = Channel::new(2, tx);
    let other = channel.clone();
    drop(channel);
    other.open().unwrap();
    assert_eq!(other.id(), 2);
    assert_eq!(raw(&rx), (2, "O".to_string()));
}

#[test]
fn queue_without_receiver_is_disconnected() {
    let (tx, rx) = unbounded();
    let channel = Channel::new(0, tx);
    drop(rx);
    assert!(matches!(channel.open(), Err(SlcanError::Disconnected)));
    assert!(matches!(channel.close(), Err(SlcanError::Disconnected)));
    assert!(matches!(channel.send_cmd("S6"), Err(SlcanError::Disconnected)));
    assert!(matches!(channel.set_bitrate(500_000), Err(SlcanError::Disconnected)));
    assert!(matches!(channel.set_data_bitrate(2), Err(SlcanError::Disconnected)));
    assert!(matches!(channel.set_data_bitrate(16), Err(SlcanError::InvalidArgument)));
    assert!(matches!(
        channel.set_sample_point(Some(800), Some(800)),
        Err(SlcanError::Disconnected)
    ));
    assert!(channel.set_sample_point(None, None).is_ok());
    assert!(matches!(
        channel.send(CanFrame::new_std(1, &[])),
        Err(SlcanError::Disconnected)
    ));
}

#[test]
fn requests_carry_the_channel() {
    let (tx, _rx) = unbounded();
    let channel = Channel::new(3, tx);
    assert!(matches!(channel.raw_request("O".to_string()), Command::SendRaw(3, t) if t == "O"));
    assert!(matches!(
        channel.frame_request(CanFrame::new_std(5, &[])),
        Command::SendFrame(3, f) if f.id == 5
    ));
}

#[test]
fn requests_of_the_settings() {
    let (tx, rx) = unbounded();
    let channel = Channel::new(1, tx);
    assert!(matches!(channel.bitrate_request(250_000), Command::SendRaw(1, t) if t == "S5"));
    assert!(matches!(channel.bitrate_request(33_000), Command::SendRaw(1, t) if t == "y33000"));
    assert!(matches!(
        channel.data_bitrate_request(15),
        Ok(Command::SendRaw(1, t)) if t == "Y15"
    ));
    assert!(matches!(channel.data_bitrate_request(1), Ok(Command::SendRaw(1, t)) if t == "Y1"));
    assert!(matches!(channel.data_bitrate_request(0), Err(SlcanError::InvalidArgument)));
    assert!(matches!(channel.data_bitrate_request(16), Err(SlcanError::InvalidArgument)));
    assert!(matches!(
        channel.data_bitrate_request(15_000_000),
        Err(SlcanError::InvalidArgument)
    ));
    assert!(matches!(channel.open_request(), Command::SendRaw(1, t) if t == "O"));
    assert!(matches!(channel.close_request(), Command::SendRaw(1, t) if t == "C"));
    let both = channel.sample_point_requests(Some(800), Some(755));
    assert_eq!(both.len(), 2);
    assert!(matches!(&both[0], Command::SendRaw(1, t) if t == "p800"));
    assert!(matches!(&both[1], Command::SendRaw(1, t) if t == "P755"));
    assert!(channel.sample_point_requests(None, None).is_empty());
    assert!(rx.try_recv().is_err());
}

#[test]
fn result_of_queueing() {
    assert!(sent_result(true).is_ok());
    assert!(matches!(sent_result(false), Err(SlcanError::Disconnected)));
}
