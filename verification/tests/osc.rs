use vrc_canvas::error::ControlError;
use vrc_canvas::osc::message::Argument;
use vrc_canvas::osc::pen_handle::{Command, Direction};
use vrc_canvas::osc::{
    receive_packet, rest_after, send_packet, CANVAS_UPDATE_LATENCY_DEFAULT_MS, DEFAULT_ADDR, DEFAULT_BASE_ADDR,
    DEFAULT_IP_ADDR, DEFAULT_RECEIVER_OSC_PORT, DEFAULT_SENDER_OSC_PORT,
};
use vrc_canvas::single::Single;

fn single(value: f32) -> Single {
    Single::from_bits(value.to_bits())
}

#[test]
fn the_endpoints_are_on_the_local_host() {
    assert_eq!(DEFAULT_IP_ADDR, "127.0.0.1");
    assert_eq!(DEFAULT_RECEIVER_OSC_PORT, 9000);
    assert_eq!(DEFAULT_SENDER_OSC_PORT, 9001);
    assert_eq!(DEFAULT_BASE_ADDR, "/avatar/parameters");
    assert_eq!(DEFAULT_ADDR, "");
    assert_eq!(CANVAS_UPDATE_LATENCY_DEFAULT_MS, 100);
}

#[test]
fn send_packet_puts_the_base_path_in_front() {
    assert_eq!(
        send_packet("/on_moving", vec![Argument::Bool(true)]),
        Ok(b"/avatar/parameters/on_moving\0\0\0\0,T\0\0".to_vec())
    );
    assert_eq!(
        send_packet("/move_up", vec![Argument::Float(single(1000.0))]),
        Ok(b"/avatar/parameters/move_up\0\0,f\0\0\x44\x7a\x00\x00".to_vec())
    );
}

#[test]
fn send_packet_takes_an_empty_path() {
    assert_eq!(send_packet("", vec![]), Ok(b"/avatar/parameters\0\0,\0\0\0".to_vec()));
}

#[test]
fn send_packet_refuses_what_makes_no_message() {
    assert_eq!(send_packet("/a\0b", vec![]), Err(ControlError::SendError));
    assert_eq!(send_packet(&"x".repeat(2000), vec![]), Err(ControlError::SendError));
    assert_eq!(send_packet("/x", vec![Argument::Int(0); 400]), Err(ControlError::SendError));
}

#[test]
fn every_command_makes_a_datagram() {
    let commands = [
        Command::Move(Direction::Right, single(1000.0)),
        Command::Move(Direction::Left, single(0.5)),
        Command::Move(Direction::Up, single(f32::INFINITY)),
        Command::Move(Direction::Down, single(f32::MIN_POSITIVE)),
        Command::Moving(true),
        Command::Moving(false),
        Command::Drawing(true),
        Command::Drawing(false),
    ];
    for command in commands {
        let datagram = send_packet(&command.addr(), command.args()).unwrap();
        let message = receive_packet(&datagram, datagram.len()).unwrap();
        assert_eq!(message.addr(), format!("/avatar/parameters{}", command.addr()));
        assert_eq!(message.args(), &command.args());
    }
}

#[test]
fn receive_packet_reads_the_bytes_that_were_received() {
    let mut buf = [0xffu8; 64];
    let datagram = b"/avatar/parameters/on_drawing\0\0\0,F\0\0";
    buf[..datagram.len()].copy_from_slice(datagram);
    let message = receive_packet(&buf, datagram.len()).unwrap();
    assert_eq!(message.addr(), "/avatar/parameters/on_drawing");
    assert_eq!(message.args(), &vec![Argument::Bool(false)]);
}

#[test]
fn receive_packet_tells_a_malformed_packet() {
    let buf = [0xffu8; 64];
    assert_eq!(receive_packet(&buf, 64).err(), Some(ControlError::MalformedPacket));
    assert_eq!(receive_packet(&buf, 0).err(), Some(ControlError::MalformedPacket));
    let datagram = b"/avatar/parameters/on_drawing\0\0\0,F\0\0";
    assert_eq!(receive_packet(datagram, datagram.len() - 1).err(), Some(ControlError::MalformedPacket));
}

#[test]
fn receive_packet_tells_a_size_beyond_the_buffer() {
    let buf = [0u8; 8];
    assert_eq!(receive_packet(&buf, 9).err(), Some(ControlError::ReceiveError));
}

#[test]
fn the_loop_rests_for_what_is_left_of_the_period() {
    assert_eq!(rest_after(100, 0), 100);
    assert_eq!(rest_after(100, 1), 99);
    assert_eq!(rest_after(100, 99), 1);
}

#[test]
fn the_loop_does_not_rest_after_a_tick_longer_than_the_period() {
    assert_eq!(rest_after(100, 100), 0);
    assert_eq!(rest_after(100, 250), 0);
    assert_eq!(rest_after(100, u64::MAX), 0);
    assert_eq!(rest_after(0, 0), 0);
}
