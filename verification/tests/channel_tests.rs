use autd3_simulator::channel::SignalChannel;
use autd3_simulator::geometry::Geometry;
use autd3_simulator::link::TxCommand;
use autd3_simulator::signal::Signal;

fn send(seed: u8) -> Signal {
    Signal::Send(vec![TxCommand::from_bytes(&vec![seed; 626]).unwrap()])
}

#[test]
fn new_channel_is_open_and_empty() {
    let mut channel = SignalChannel::new();
    assert!(channel.is_open());
    assert!(channel.is_empty());
    assert_eq!(channel.len(), 0);
    assert_eq!(channel.recv(), None);
}

#[test]
fn signals_leave_in_the_order_they_arrived() {
    let mut channel = SignalChannel::new();
    assert_eq!(channel.send(Signal::ConfigGeometry(Geometry::new(Vec::new()).unwrap())), Ok(()));
    assert_eq!(channel.send(send(1)), Ok(()));
    assert_eq!(channel.send(send(2)), Ok(()));
    assert_eq!(channel.send(Signal::Close), Ok(()));
    assert_eq!(channel.len(), 4);
    assert!(!channel.is_empty());
    assert_eq!(channel.recv(), Some(Signal::ConfigGeometry(Geometry::new(Vec::new()).unwrap())));
    assert_eq!(channel.recv(), Some(send(1)));
    assert_eq!(channel.send(send(3)), Ok(()));
    assert_eq!(channel.recv(), Some(send(2)));
    assert_eq!(channel.recv(), Some(Signal::Close));
    assert_eq!(channel.recv(), Some(send(3)));
    assert_eq!(channel.recv(), None);
    assert!(channel.is_empty());
}

#[test]
fn shut_channel_hands_the_signal_back() {
    let mut channel = SignalChannel::new();
    assert_eq!(channel.send(send(1)), Ok(()));
    channel.close();
    assert!(!channel.is_open());
    assert!(channel.is_empty());
    assert_eq!(channel.recv(), None);
    assert_eq!(channel.send(send(2)), Err(send(2)));
    assert_eq!(channel.send(Signal::Close), Err(Signal::Close));
    assert_eq!(channel.len(), 0);
    channel.close();
    assert!(!channel.is_open());
}
