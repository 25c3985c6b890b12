use artnet_to_hass::artnet::parse_artdmx;

/// Build a minimal ArtDmx packet for tests.
/// Layout:
///   0..8   "Art-Net\0"
///   8..10  OpCode (little-endian)      = 0x5000
///   10..12 ProtVer (big-endian)        = 14
///   12     Sequence
///   13     Physical
///   14..16 PortAddress (little-endian) = universe
///   16..18 Length (big-endian)         = payload len
///   18..   DMX payload (up to 512 bytes)
fn build_artdmx(universe: u16, dmx: &[u8]) -> Vec<u8> {
    let mut pkt = Vec::with_capacity(18 + dmx.len());
    pkt.extend_from_slice(b"Art-Net\0");
    pkt.extend_from_slice(&0x5000u16.to_le_bytes());
    pkt.extend_from_slice(&14u16.to_be_bytes());
    pkt.push(0);
    pkt.push(0);
    pkt.extend_from_slice(&universe.to_le_bytes());
    pkt.extend_from_slice(&(dmx.len() as u16).to_be_bytes());
    pkt.extend_from_slice(dmx);
    pkt
}

#[test]
fn parses_valid_packet_universe_0_channels_1_2_3() {
    let mut dmx = vec![0u8; 512];
    dmx[0] = 255;
    dmx[1] = 80;
    dmx[2] = 0;
    let pkt = build_artdmx(0, &dmx);
    assert_eq!(parse_artdmx(&pkt, 0, 1), Some((255, 80, 0)));
}

#[test]
fn respects_rgb_start_channel() {
    let mut dmx = vec![0u8; 512];
    dmx[9] = 10;
    dmx[10] = 20;
    dmx[11] = 30;
    let pkt = build_artdmx(0, &dmx);
    assert_eq!(parse_artdmx(&pkt, 0, 10), Some((10, 20, 30)));
}

#[test]
fn rejects_wrong_universe() {
    let dmx = vec![1u8; 512];
    let pkt = build_artdmx(1, &dmx);
    assert_eq!(parse_artdmx(&pkt, 0, 1), None);
}

#[test]
fn rejects_bad_magic() {
    let mut pkt = build_artdmx(0, &vec![0u8; 512]);
    pkt[0] = b'X';
    assert_eq!(parse_artdmx(&pkt, 0, 1), None);
}

#[test]
fn rejects_wrong_opcode() {
    let mut pkt = build_artdmx(0, &vec![0u8; 512]);
    // Change OpCode to something else (e.g., ArtPoll 0x2000, little-endian).
    pkt[8] = 0x00;
    pkt[9] = 0x20;
    assert_eq!(parse_artdmx(&pkt, 0, 1), None);
}

#[test]
fn rejects_low_protocol_version() {
    let mut pkt = build_artdmx(0, &vec![0u8; 512]);
    // ProtVer is big-endian at bytes 10..12. Set to 13.
    pkt[10] = 0;
    pkt[11] = 13;
    assert_eq!(parse_artdmx(&pkt, 0, 1), None);
}

#[test]
fn rejects_packet_too_short_for_header() {
    assert_eq!(parse_artdmx(b"Art-Net\0", 0, 1), None);
}

#[test]
fn rejects_payload_shorter_than_start_channel_plus_two() {
    // DMX payload is only 2 bytes, can't cover channels 1..=3.
    let pkt = build_artdmx(0, &[100, 100]);
    assert_eq!(parse_artdmx(&pkt, 0, 1), None);
}

#[test]
fn respects_declared_length_field() {
    // Build a packet whose buffer is 512 bytes but declared length is 2.
    let mut pkt = build_artdmx(0, &vec![0u8; 512]);
    // Overwrite declared length (bytes 16..18, big-endian) to 2.
    pkt[16] = 0;
    pkt[17] = 2;
    // With declared length 2, channels 1..=3 are not covered.
    assert_eq!(parse_artdmx(&pkt, 0, 1), None);
}

#[test]
fn rejects_declared_length_beyond_buffer() {
    // Sender claims 100 payload bytes but only 2 are actually present.
    // Simulates a truncated UDP datagram.
    let mut pkt = build_artdmx(0, &[10u8, 20]);
    pkt[16] = 0;
    pkt[17] = 100;
    assert_eq!(parse_artdmx(&pkt, 0, 1), None);
}

#[test]
fn rejects_zero_start_channel() {
    // rgb_start_channel is 1-indexed; 0 is always invalid.
    let pkt = build_artdmx(0, &vec![0u8; 512]);
    assert_eq!(parse_artdmx(&pkt, 0, 0), None);
}

#[test]
fn ignores_bytes_past_declared_payload() {
    let mut dmx = vec![0u8; 3];
    dmx[0] = 4;
    dmx[1] = 5;
    dmx[2] = 6;
    let pkt = build_artdmx(7, &dmx);
    let mut longer = pkt.clone();
    longer.extend_from_slice(&[9, 9, 9, 9]);
    assert_eq!(parse_artdmx(&pkt, 7, 1), Some((4, 5, 6)));
    assert_eq!(parse_artdmx(&longer, 7, 1), Some((4, 5, 6)));
    assert_eq!(parse_artdmx(&longer, 7, 2), None);
}

#[test]
fn universe_is_little_endian_and_full_width() {
    let dmx = vec![1u8, 2, 3];
    let pkt = build_artdmx(0x1234, &dmx);
    assert_eq!(parse_artdmx(&pkt, 0x1234, 1), Some((1, 2, 3)));
    assert_eq!(parse_artdmx(&pkt, 0x3412, 1), None);
}

#[test]
fn accepts_newer_protocol_version() {
    let mut pkt = build_artdmx(0, &[1, 2, 3]);
    pkt[10] = 1;
    pkt[11] = 0;
    assert_eq!(parse_artdmx(&pkt, 0, 1), Some((1, 2, 3)));
}
