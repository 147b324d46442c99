use std::collections::VecDeque;

use autd3_simulator::ack_store::AckStore;
use autd3_simulator::codec::{encode_request, magic, Request};
use autd3_simulator::geometry::{Device, Geometry, Position, Rotation};
use autd3_simulator::link::{RxStatus, TxCommand};
use autd3_simulator::session::{Action, Session, SessionState};
use autd3_simulator::signal::Signal;
use autd3_simulator::simulator::{Directive, Simulator};

use autd3_core::link::{MsgId, RxMessage, TxMessage};
use autd3_firmware_emulator::CPUEmulator;

const TRANSDUCERS_PER_DEVICE: usize = 249;

fn identity() -> Device {
    Device {
        pos: Position { x: 0, y: 0, z: 0 },
        rot: Rotation { w: 1.0f32.to_bits(), i: 0, j: 0, k: 0 },
    }
}

fn to_message(command: &TxCommand) -> TxMessage {
    let bytes = command.as_bytes();
    let mut message = TxMessage::new();
    message.header.msg_id = MsgId::new(bytes[0]);
    message.header.slot_2_offset = u16::from_le_bytes([bytes[2], bytes[3]]);
    message.payload_mut().copy_from_slice(&bytes[4..]);
    message
}

fn to_status(rx: RxMessage) -> RxStatus {
    RxStatus { data: rx.data(), ack: (rx.ack().err() << 4) | rx.ack().msg_id() }
}

/// The simulation owner with a device emulator behind it.
struct Owner {
    sim: Simulator,
    store: AckStore,
    cpus: Vec<CPUEmulator>,
    open: bool,
}

impl Owner {
    fn new() -> Self {
        Owner { sim: Simulator::new(), store: AckStore::new(), cpus: Vec::new(), open: true }
    }

    fn deliver(&mut self, signal: Signal) -> bool {
        if !self.open {
            return false;
        }
        match self.sim.update(&mut self.store, Some(signal)) {
            Directive::Tick | Directive::ReconfigurePose(_) => {}
            Directive::Configure(geometry) => {
                self.cpus = (0..geometry.num_devices())
                    .map(|idx| CPUEmulator::new(idx, TRANSDUCERS_PER_DEVICE))
                    .collect();
            }
            Directive::Apply(commands) => {
                let messages: Vec<TxMessage> = commands.iter().map(to_message).collect();
                for cpu in &mut self.cpus {
                    cpu.send(&messages);
                }
                let statuses = self.cpus.iter().map(|cpu| to_status(cpu.rx())).collect();
                assert!(self.store.publish(statuses));
            }
            Directive::Reset => self.cpus.clear(),
        }
        self.sim.drain();
        assert!(self.sim.update_flag().is_empty());
        true
    }
}

/// Serves everything the client has written, and returns everything written back and
/// whether the connection was ended by the server.
fn serve(session: &mut Session, owner: &mut Owner, written: &[u8]) -> (Vec<u8>, bool) {
    let mut input: VecDeque<u8> = written.iter().copied().collect();
    let mut output = Vec::new();
    let mut frame = Vec::new();
    loop {
        match session.step(&frame, &owner.store) {
            Action::Read(n) => {
                if input.len() < n {
                    return (output, false);
                }
                frame.extend(input.drain(..n));
            }
            Action::Forward(signal) => {
                let delivered = owner.deliver(signal);
                let reply = session.settle(delivered).unwrap();
                output.extend_from_slice(&reply.bytes);
                if reply.close {
                    return (output, true);
                }
                frame.clear();
            }
            Action::Respond(reply) => {
                output.extend_from_slice(&reply.bytes);
                if reply.close {
                    return (output, true);
                }
                frame.clear();
            }
        }
    }
}

#[test]
fn end_to_end_session() {
    let mut session = Session::new();
    let mut owner = Owner::new();
    let geometry = Geometry::new(vec![identity(), identity()]).unwrap();

    let hello = encode_request(&Request::Hello { version: 1, magic: magic() });
    assert_eq!(serve(&mut session, &mut owner, &hello), (vec![0x00], false));
    assert_eq!(session.state(), SessionState::Ready);

    let configure = encode_request(&Request::ConfigGeometry(geometry.clone()));
    assert_eq!(serve(&mut session, &mut owner, &configure), (vec![0x00], false));
    assert_eq!(session.device_count(), 2);
    assert_eq!(owner.sim.geometry(), Some(&geometry));
    assert_eq!(owner.cpus.len(), 2);

    let send = encode_request(&Request::Send(vec![TxCommand::new(), TxCommand::new()]));
    assert_eq!(serve(&mut session, &mut owner, &send), (vec![0x00], false));

    let mut reference = vec![CPUEmulator::new(0, 249), CPUEmulator::new(1, 249)];
    let zeroed = vec![TxMessage::new(), TxMessage::new()];
    let mut expected = vec![0x00];
    for cpu in &mut reference {
        cpu.send(&zeroed);
        let status = to_status(cpu.rx());
        expected.push(status.data);
        expected.push(status.ack);
    }
    let read = encode_request(&Request::Read);
    assert_eq!(serve(&mut session, &mut owner, &read), (expected.clone(), false));
    assert_eq!(expected, vec![0x00, 0x00, 0x00, 0x00, 0x00]);

    let close = encode_request(&Request::Close);
    assert_eq!(serve(&mut session, &mut owner, &close), (vec![0x00], true));
    assert_eq!(session.state(), SessionState::Closed);
    assert_eq!(owner.sim.geometry(), None);
    assert!(owner.cpus.is_empty());
}

#[test]
fn whole_conversation_in_one_write() {
    let mut session = Session::new();
    let mut owner = Owner::new();
    let mut written = Vec::new();
    written.extend(encode_request(&Request::Hello { version: 1, magic: magic() }));
    written.extend(encode_request(&Request::ConfigGeometry(
        Geometry::new(vec![identity()]).unwrap(),
    )));
    written.extend(encode_request(&Request::Read));
    written.extend(encode_request(&Request::Close));
    written.extend(encode_request(&Request::Read));
    assert_eq!(
        serve(&mut session, &mut owner, &written),
        (vec![0x00, 0x00, 0x00, 0x00, 0x00, 0x00], true)
    );
}

#[test]
fn statuses_reflect_the_emulator() {
    let mut session = Session::new();
    let mut owner = Owner::new();
    let mut written = Vec::new();
    written.extend(encode_request(&Request::Hello { version: 1, magic: magic() }));
    written.extend(encode_request(&Request::ConfigGeometry(
        Geometry::new(vec![identity()]).unwrap(),
    )));
    let mut record = vec![0u8; 626];
    record[0] = 0x05;
    record[4] = 0xEE;
    written.extend(encode_request(&Request::Send(vec![TxCommand::from_bytes(&record).unwrap()])));
    written.extend(encode_request(&Request::Read));
    let (output, closed) = serve(&mut session, &mut owner, &written);
    assert!(!closed);
    let mut cpu = CPUEmulator::new(0, 249);
    cpu.send(&[to_message(&TxCommand::from_bytes(&record).unwrap())]);
    let status = to_status(cpu.rx());
    assert_eq!(status, RxStatus { data: 0x00, ack: 0x15 });
    assert_eq!(output, vec![0x00, 0x00, 0x00, 0x00, 0x00, 0x15]);
}

#[test]
fn command_before_handshake_reaches_no_simulation() {
    let mut session = Session::new();
    let mut owner = Owner::new();
    let configure =
        encode_request(&Request::ConfigGeometry(Geometry::new(vec![identity()]).unwrap()));
    let (output, closed) = serve(&mut session, &mut owner, &configure);
    assert!(closed);
    assert_eq!(output[0], 0xFF);
    assert_eq!(&output[5..], b"Handshake is required before sending commands");
    assert_eq!(owner.sim.geometry(), None);
    assert_eq!(owner.store.version(), 0);
    assert!(owner.cpus.is_empty());
}

#[test]
fn closed_simulator_is_reported_to_the_client() {
    let mut session = Session::new();
    let mut owner = Owner::new();
    let hello = encode_request(&Request::Hello { version: 1, magic: magic() });
    assert_eq!(serve(&mut session, &mut owner, &hello), (vec![0x00], false));
    owner.open = false;
    let configure =
        encode_request(&Request::ConfigGeometry(Geometry::new(vec![identity()]).unwrap()));
    let (output, closed) = serve(&mut session, &mut owner, &configure);
    assert!(closed);
    assert_eq!(output[0], 0xFF);
    assert_eq!(&output[1..5], &[19, 0, 0, 0]);
    assert_eq!(&output[5..], b"Simulator is closed");
    assert_eq!(session.device_count(), 0);
}

#[test]
fn truncated_request_gets_no_response() {
    let mut session = Session::new();
    let mut owner = Owner::new();
    let hello = encode_request(&Request::Hello { version: 1, magic: magic() });
    assert_eq!(serve(&mut session, &mut owner, &hello[..9]), (Vec::new(), false));
    assert_eq!(session.state(), SessionState::Unauthenticated);
}
