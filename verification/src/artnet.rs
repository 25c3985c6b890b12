//! Decoding of Art-Net `ArtDmx` packets.
//!
//! Packet layout:
//!
//! ```text
//!   0..8   "Art-Net\0"
//!   8..10  OpCode (little-endian)      = 0x5000 (OpDmx)
//!   10..12 ProtVer (big-endian)        >= 14
//!   12     Sequence
//!   13     Physical
//!   14..16 PortAddress (little-endian) = universe
//!   16..18 Length (big-endian)         = payload length
//!   18..   DMX payload
//! ```
use vstd::prelude::*;

verus! {

/// Length of the fixed ArtDmx header that precedes the DMX payload.
pub const HEADER_LEN: usize = 18;

/// OpCode of an ArtDmx packet.
pub const OP_DMX: u16 = 0x5000;

/// Lowest protocol version that is accepted.
pub const MIN_PROTOCOL_VERSION: u16 = 14;

/// The eight identification bytes `"Art-Net\0"` that open every Art-Net packet.
pub open spec fn art_net_id() -> Seq<u8> {
    seq![0x41u8, 0x72u8, 0x74u8, 0x2du8, 0x4eu8, 0x65u8, 0x74u8, 0x00u8]
}

/// A 16-bit number stored little-endian (`lo` first).
pub open spec fn le16(lo: u8, hi: u8) -> int {
    lo as int + 256 * (hi as int)
}

/// A 16-bit number stored big-endian (`hi` first).
pub open spec fn be16(hi: u8, lo: u8) -> int {
    256 * (hi as int) + lo as int
}

/// The payload length that the header of `buf` declares (bytes 16..18, big-endian).
pub open spec fn declared_len(buf: Seq<u8>) -> int
    recommends
        buf.len() >= 18,
{
    be16(buf[16], buf[17])
}

/// `buf` is a well-formed ArtDmx packet for `universe`: the header is complete,
/// carries the Art-Net id, the OpDmx opcode, a protocol version of at least 14,
/// the given universe, and a declared payload length that the buffer holds.
pub open spec fn is_artdmx_for(buf: Seq<u8>, universe: u16) -> bool {
    &&& buf.len() >= 18
    &&& buf.subrange(0, 8) == art_net_id()
    &&& le16(buf[8], buf[9]) == 0x5000
    &&& be16(buf[10], buf[11]) >= 14
    &&& le16(buf[14], buf[15]) == universe as int
    &&& 18 + declared_len(buf) <= buf.len()
}

/// The 1-indexed channels `start`, `start + 1`, `start + 2` all lie inside the
/// declared payload of `buf`.
pub open spec fn channels_in_payload(buf: Seq<u8>, start: u16) -> bool {
    &&& start >= 1
    &&& (start as int - 1) + 2 < declared_len(buf)
}

/// What an ArtDmx packet yields: the RGB triplet at the 1-indexed channel
/// `start` of the payload, when `buf` is an ArtDmx packet for `universe`
/// whose declared payload covers channels `start..start + 3`; nothing otherwise.
pub open spec fn artdmx_rgb(buf: Seq<u8>, universe: u16, start: u16) -> Option<(u8, u8, u8)> {
    if is_artdmx_for(buf, universe) && channels_in_payload(buf, start) {
        let i = 18 + start as int - 1;
        Some((buf[i], buf[i + 1], buf[i + 2]))
    } else {
        None
    }
}

/// Whether the first eight bytes of `buf` are `"Art-Net\0"`.
fn has_art_net_id(buf: &[u8]) -> (r: bool)
    requires
        buf@.len() >= 8,
    ensures
        r == (buf@.subrange(0, 8) == art_net_id()),
{
    let r = buf[0] == 0x41u8 && buf[1] == 0x72u8 && buf[2] == 0x74u8 && buf[3] == 0x2du8
        && buf[4] == 0x4eu8 && buf[5] == 0x65u8 && buf[6] == 0x74u8 && buf[7] == 0x00u8;
    assert(r ==> buf@.subrange(0, 8) =~= art_net_id());
    assert(buf@.subrange(0, 8) == art_net_id() ==> {
        &&& buf@.subrange(0, 8)[0] == art_net_id()[0]
        &&& buf@.subrange(0, 8)[1] == art_net_id()[1]
        &&& buf@.subrange(0, 8)[2] == art_net_id()[2]
        &&& buf@.subrange(0, 8)[3] == art_net_id()[3]
        &&& buf@.subrange(0, 8)[4] == art_net_id()[4]
        &&& buf@.subrange(0, 8)[5] == art_net_id()[5]
        &&& buf@.subrange(0, 8)[6] == art_net_id()[6]
        &&& buf@.subrange(0, 8)[7] == art_net_id()[7]
    });
    r
}

/// Parse an ArtDmx packet and extract an RGB triplet from the configured start channel.
///
/// Returns `Some((r, g, b))` only for valid ArtDmx packets on the matching universe.
/// All other packets (ArtPoll, wrong universe, malformed, etc.) return `None`.
pub fn parse_artdmx(buf: &[u8], universe: u16, rgb_start_channel: u16) -> (r: Option<(u8, u8, u8)>)
    ensures
        r == artdmx_rgb(buf@, universe, rgb_start_channel),
{
    if buf.len() < HEADER_LEN {
        return None;
    }
    if !has_art_net_id(buf) {
        return None;
    }
    let opcode: u16 = buf[8] as u16 + (buf[9] as u16) * 256;
    if opcode != OP_DMX {
        return None;
    }
    let protver: u16 = (buf[10] as u16) * 256 + buf[11] as u16;
    if protver < MIN_PROTOCOL_VERSION {
        return None;
    }
    let pkt_universe: u16 = buf[14] as u16 + (buf[15] as u16) * 256;
    if pkt_universe != universe {
        return None;
    }
    let declared: usize = (buf[16] as usize) * 256 + buf[17] as usize;
    let payload_end: usize = HEADER_LEN + declared;
    if payload_end > buf.len() {
        return None;
    }
    if rgb_start_channel == 0 {
        return None;
    }
    let start_idx: usize = (rgb_start_channel - 1) as usize;
    if start_idx + 2 >= declared {
        return None;
    }
    let i: usize = HEADER_LEN + start_idx;
    Some((buf[i], buf[i + 1], buf[i + 2]))
}

/// The ArtDmx packet that carries `dmx` on `universe`, with the given sequence
/// and physical-port bytes, protocol version 14 and the payload length declared.
pub open spec fn artdmx_packet(universe: u16, sequence: u8, physical: u8, dmx: Seq<u8>) -> Seq<u8>
    recommends
        dmx.len() <= 0xffff,
{
    art_net_id() + seq![
        0x00u8,
        0x50u8,
        0u8,
        14u8,
        sequence,
        physical,
        (universe % 256) as u8,
        (universe / 256) as u8,
        (dmx.len() / 256) as u8,
        (dmx.len() % 256) as u8,
    ] + dmx
}

/// Round trip: an ArtDmx packet built for `universe` from a payload `dmx`,
/// followed by any trailing bytes, decodes on that universe to the three
/// channels of `dmx` that start at the 1-indexed channel `start`, provided the
/// payload covers them.
pub proof fn lemma_packet_round_trip(
    universe: u16,
    sequence: u8,
    physical: u8,
    dmx: Seq<u8>,
    trailing: Seq<u8>,
    start: u16,
)
    requires
        dmx.len() <= 0xffff,
        1 <= start,
        start as int + 1 < dmx.len(),
    ensures
        artdmx_rgb(artdmx_packet(universe, sequence, physical, dmx) + trailing, universe, start)
            == Some((dmx[start - 1], dmx[start as int], dmx[start + 1])),
{
    let buf = artdmx_packet(universe, sequence, physical, dmx) + trailing;
    assert(buf.subrange(0, 8) =~= art_net_id());
    assert(declared_len(buf) == dmx.len());
    assert(le16(buf[14], buf[15]) == universe as int);
    assert(buf[18 + start as int - 1] == dmx[start - 1]);
    assert(buf[18 + start as int] == dmx[start as int]);
    assert(buf[18 + start as int + 1] == dmx[start + 1]);
}

/// Exactly the ArtDmx packets on the listened universe yield a triplet, and the
/// triplet comes from inside the declared payload: the buffer opens with
/// `"Art-Net\0"`, bytes 8..10 are `00 50` (OpDmx), bytes 10..12 hold a protocol
/// version of at least 14, bytes 14..16 hold the universe (low byte first),
/// bytes 16..18 the payload length (high byte first), the payload fits in the
/// buffer, and the three bytes returned are the payload's bytes `start - 1`,
/// `start`, `start + 1`, all before the payload's end. Any other buffer yields
/// nothing.
pub proof fn lemma_only_artdmx_on_universe_yields(buf: Seq<u8>, universe: u16, start: u16)
    ensures
        artdmx_rgb(buf, universe, start) == (if {
            &&& buf.len() >= 18
            &&& buf[0] == 0x41 && buf[1] == 0x72 && buf[2] == 0x74 && buf[3] == 0x2d
            &&& buf[4] == 0x4e && buf[5] == 0x65 && buf[6] == 0x74 && buf[7] == 0x00
            &&& buf[8] == 0x00 && buf[9] == 0x50
            &&& buf[10] as int * 256 + buf[11] as int >= 14
            &&& buf[14] as int + buf[15] as int * 256 == universe as int
            &&& 18 + (buf[16] as int * 256 + buf[17] as int) <= buf.len()
            &&& 1 <= start
            &&& start as int + 1 < buf[16] as int * 256 + buf[17] as int
        } {
            Some((buf[17 + start as int], buf[18 + start as int], buf[19 + start as int]))
        } else {
            None
        }),
{
    if buf.len() >= 8 {
        let id = buf.subrange(0, 8);
        assert(id[0] == buf[0] && id[1] == buf[1] && id[2] == buf[2] && id[3] == buf[3]);
        assert(id[4] == buf[4] && id[5] == buf[5] && id[6] == buf[6] && id[7] == buf[7]);
        if buf[0] == 0x41 && buf[1] == 0x72 && buf[2] == 0x74 && buf[3] == 0x2d && buf[4] == 0x4e
            && buf[5] == 0x65 && buf[6] == 0x74 && buf[7] == 0x00 {
            assert(id =~= art_net_id());
        }
    }
}

/// Universe filter: a packet built for one universe yields nothing on any other.
pub proof fn lemma_other_universe_yields_nothing(
    universe: u16,
    listened: u16,
    sequence: u8,
    physical: u8,
    dmx: Seq<u8>,
    trailing: Seq<u8>,
    start: u16,
)
    requires
        dmx.len() <= 0xffff,
        universe != listened,
    ensures
        artdmx_rgb(artdmx_packet(universe, sequence, physical, dmx) + trailing, listened, start)
            is None,
{
    let buf = artdmx_packet(universe, sequence, physical, dmx) + trailing;
    assert(le16(buf[14], buf[15]) == universe as int);
}

/// Channel numbering is 1-based: start channel 0 never yields a triplet.
pub proof fn lemma_start_channel_zero_yields_nothing(buf: Seq<u8>, universe: u16)
    ensures
        artdmx_rgb(buf, universe, 0) is None,
{
}

/// Bytes past the declared payload are ignored: once a buffer holds a complete
/// header and the payload it declares, appending anything leaves the result unchanged.
pub proof fn lemma_trailing_bytes_ignored(buf: Seq<u8>, extra: Seq<u8>, universe: u16, start: u16)
    requires
        buf.len() >= 18,
        18 + declared_len(buf) <= buf.len(),
    ensures
        artdmx_rgb(buf + extra, universe, start) == artdmx_rgb(buf, universe, start),
{
    let ext = buf + extra;
    assert(ext.subrange(0, 8) =~= buf.subrange(0, 8));
    assert(declared_len(ext) == declared_len(buf));
    if channels_in_payload(buf, start) {
        let i = 18 + start as int - 1;
        assert(ext[i] == buf[i] && ext[i + 1] == buf[i + 1] && ext[i + 2] == buf[i + 2]);
    }
}

} // verus!
