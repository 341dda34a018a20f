use mcservernap::handshake::classify_handshake;
use mcservernap::handshake::HandshakeOutcome;
use mcservernap::write_varint;

/// Build a well-formed handshake packet: length prefix, packet id 0,
/// protocol version, address string, two port bytes, next-state.
fn build_handshake(next_state: i32) -> Vec<u8> {
    let mut body: Vec<u8> = Vec::new();
    write_varint(0, &mut body); // packet id
    write_varint(766, &mut body); // protocol version
    let addr = b"localhost";
    write_varint(addr.len() as i32, &mut body);
    body.extend_from_slice(addr);
    body.extend_from_slice(&[0x63, 0xDD]); // port 25565
    write_varint(next_state, &mut body);
    let mut packet: Vec<u8> = Vec::new();
    write_varint(body.len() as i32, &mut packet);
    packet.extend_from_slice(&body);
    packet
}

#[test]
fn next_state_one_is_a_status_probe() {
    assert_eq!(classify_handshake(&build_handshake(1)), HandshakeOutcome::StatusProbe);
}

#[test]
fn next_state_two_is_a_login() {
    assert_eq!(classify_handshake(&build_handshake(2)), HandshakeOutcome::Login);
}

#[test]
fn next_state_three_is_ignored() {
    assert_eq!(classify_handshake(&build_handshake(3)), HandshakeOutcome::Ignore);
}

#[test]
fn next_state_zero_is_ignored() {
    assert_eq!(classify_handshake(&build_handshake(0)), HandshakeOutcome::Ignore);
}

#[test]
fn wrong_packet_id_is_ignored() {
    let mut body: Vec<u8> = Vec::new();
    write_varint(5, &mut body); // not a handshake packet id
    write_varint(766, &mut body);
    write_varint(0, &mut body);
    body.extend_from_slice(&[0x00, 0x00]);
    write_varint(2, &mut body);
    let mut packet: Vec<u8> = Vec::new();
    write_varint(body.len() as i32, &mut packet);
    packet.extend_from_slice(&body);
    assert_eq!(classify_handshake(&packet), HandshakeOutcome::Ignore);
}

#[test]
fn empty_input_is_ignored() {
    assert_eq!(classify_handshake(&[]), HandshakeOutcome::Ignore);
}

#[test]
fn malformed_length_varint_is_ignored() {
    assert_eq!(
        classify_handshake(&[0x80, 0x80, 0x80, 0x80, 0x80, 0x00]),
        HandshakeOutcome::Ignore
    );
}

#[test]
fn truncated_before_next_state_is_ignored() {
    let full = build_handshake(2);
    // cut the packet just before the final next-state varint
    let truncated = &full[..full.len() - 1];
    assert_eq!(classify_handshake(truncated), HandshakeOutcome::Ignore);
}

#[test]
fn address_length_overrunning_the_buffer_is_ignored() {
    let mut body: Vec<u8> = Vec::new();
    write_varint(0, &mut body);
    write_varint(766, &mut body);
    write_varint(10_000, &mut body); // pretends a huge address follows
    body.extend_from_slice(b"short");
    let mut packet: Vec<u8> = Vec::new();
    write_varint(body.len() as i32, &mut packet);
    packet.extend_from_slice(&body);
    assert_eq!(classify_handshake(&packet), HandshakeOutcome::Ignore);
}
