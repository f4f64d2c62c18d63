//! Transport framing: the outbound poll command and the inbound
//! response frame.
//!
//! Outbound, the fixed opcode sequence `AB CD 03 5E 01 D9` is sent with a
//! one-byte length prefix.  Inbound, the device delivers a HID report
//! `[reportLength][AB][CD][payloadLength][payload...][checksum x2]`; the
//! framer strips the report-length byte, validates the header and the
//! declared length, and hands back the payload with the two trailing
//! checksum bytes removed.  The checksum is carried but never verified,
//! which mirrors the device protocol as deployed.

use vstd::prelude::*;
use vstd::slice::slice_index_get;

verus! {

/// The fixed 6-byte poll opcode sequence: header `AB CD`, length `03`,
/// opcode `5E 01`, checksum `D9`.
pub open spec fn measurement_command_spec() -> Seq<u8> {
    seq![0xABu8, 0xCDu8, 0x03u8, 0x5Eu8, 0x01u8, 0xD9u8]
}

/// The opcode sequence that asks the meter for one measurement.
pub fn measurement_command() -> (r: Vec<u8>)
    ensures
        r@ == measurement_command_spec(),
{
    let mut v: Vec<u8> = Vec::new();
    v.push(0xAB);
    v.push(0xCD);
    v.push(0x03);
    v.push(0x5E);
    v.push(0x01);
    v.push(0xD9);
    proof {
        assert(v@ =~= measurement_command_spec());
    }
    v
}

/// The static allowlist of (vendor id, product id) pairs under which the
/// meter enumerates, in the order they are tried.
pub open spec fn device_ids_spec() -> Seq<(u16, u16)> {
    seq![(0x1A86u16, 0xE429u16), (0x10C4u16, 0xEA80u16)]
}

/// The (vendor id, product id) pairs to try in order when opening the
/// meter: the QinHeng bridge first, then the Silicon Labs CP2110.
pub fn device_ids() -> (r: Vec<(u16, u16)>)
    ensures
        r@ == device_ids_spec(),
{
    let mut v: Vec<(u16, u16)> = Vec::new();
    v.push((0x1A86, 0xE429));
    v.push((0x10C4, 0xEA80));
    proof {
        assert(v@ =~= device_ids_spec());
    }
    v
}

/// What `encode_command` produces: the opcode bytes behind a one-byte
/// length prefix.
pub open spec fn encoded_command_spec(cmd: Seq<u8>) -> Seq<u8> {
    seq![cmd.len() as u8].add(cmd)
}

/// Prepends the one-byte length prefix that the HID transport expects
/// before an outbound opcode sequence.
pub fn encode_command(cmd: &[u8]) -> (r: Vec<u8>)
    requires
        cmd@.len() <= 255,
    ensures
        r@ == encoded_command_spec(cmd@),
{
    let mut buf: Vec<u8> = Vec::with_capacity(cmd.len() + 1);
    buf.push(cmd.len() as u8);
    buf.extend_from_slice(cmd);
    proof {
        assert(buf@ =~= encoded_command_spec(cmd@));
    }
    buf
}

/// A stripped inbound buffer (the bytes after the report-length byte)
/// carries a well-formed frame: `AB CD` header, a declared payload length
/// that covers at least the two checksum bytes, and enough bytes on hand
/// for header, length byte and declared payload.
pub open spec fn frame_ok(data: Seq<u8>) -> bool {
    &&& data.len() > 3
    &&& data[0] == 0xAB
    &&& data[1] == 0xCD
    &&& data[2] >= 2
    &&& data.len() >= 3 + data[2]
}

/// The payload of a well-formed stripped buffer: the declared bytes after
/// the length byte, with the two trailing checksum bytes removed.
pub open spec fn frame_payload(data: Seq<u8>) -> Seq<u8> {
    data.subrange(3, data[2] + 1)
}

/// Validates one inbound HID report and unwraps its payload.
///
/// `buf` is the raw read buffer and `n` how many bytes the read returned.
/// The first byte (the device's report-length prefix) is dropped; the rest
/// must carry the `AB CD` header and a payload length that fits inside the
/// received bytes, or the frame is discarded and nothing is returned.  On
/// success the payload is returned with the two trailing checksum bytes
/// removed; the checksum itself is never verified.  A declared payload
/// length too small to cover the checksum bytes is likewise discarded.
pub fn decode_frame(buf: &[u8], n: usize) -> (r: Option<Vec<u8>>)
    requires
        n <= buf@.len(),
    ensures
        r is Some <==> (n >= 1 && frame_ok(buf@.subrange(1, n as int))),
        r matches Some(p) ==> p@ == frame_payload(buf@.subrange(1, n as int)),
{
    if n == 0 {
        return None;
    }
    let ghost data = buf@.subrange(1, n as int);
    let data_len = n - 1;
    if data_len <= 3 {
        return None;
    }
    if *slice_index_get(buf, 1) != 0xAB || *slice_index_get(buf, 2) != 0xCD {
        return None;
    }
    let payload_len = *slice_index_get(buf, 3) as usize;
    if payload_len < 2 {
        return None;
    }
    if data_len < 3 + payload_len {
        return None;
    }
    assert(frame_ok(data));
    let mut out: Vec<u8> = Vec::new();
    let end = 4 + payload_len - 2;
    let mut i: usize = 4;
    while i < end
        invariant
            4 <= i <= end,
            end == payload_len + 2 <= n <= buf@.len(),
            out@ == buf@.subrange(4, i as int),
        decreases end - i,
    {
        out.push(*slice_index_get(buf, i));
        proof {
            assert(out@ =~= buf@.subrange(4, i + 1));
        }
        i = i + 1;
    }
    proof {
        assert(out@ =~= frame_payload(data));
    }
    Some(out)
}

/// Builds a complete inbound report around `payload`: report-length
/// prefix, `AB CD` header, length byte, the payload, then the two given
/// checksum bytes.
pub open spec fn frame_for_spec(payload: Seq<u8>, c1: u8, c2: u8) -> Seq<u8> {
    seq![(payload.len() + 5) as u8, 0xABu8, 0xCDu8, (payload.len() + 2) as u8].add(payload).add(
        seq![c1, c2],
    )
}

/// Wraps a payload in the full report framing that `decode_frame`
/// accepts, with the two checksum bytes supplied by the caller (the
/// protocol carries them unverified).
pub fn frame_for(payload: &[u8], c1: u8, c2: u8) -> (r: Vec<u8>)
    requires
        payload@.len() <= 253,
    ensures
        r@ == frame_for_spec(payload@, c1, c2),
{
    let mut buf: Vec<u8> = Vec::new();
    buf.push((payload.len() + 5) as u8);
    buf.push(0xAB);
    buf.push(0xCD);
    buf.push((payload.len() + 2) as u8);
    buf.extend_from_slice(payload);
    buf.push(c1);
    buf.push(c2);
    proof {
        assert(buf@ =~= frame_for_spec(payload@, c1, c2));
    }
    buf
}

/// Law: framing round trip.  A frame built around any payload of 2 to 61
/// bytes is accepted by the frame validator and decodes back to exactly
/// that payload, whatever the two checksum bytes hold.
pub proof fn lemma_frame_round_trip(payload: Seq<u8>, c1: u8, c2: u8)
    requires
        2 <= payload.len() <= 61,
    ensures
        ({
            let f = frame_for_spec(payload, c1, c2);
            &&& frame_ok(f.subrange(1, f.len() as int))
            &&& frame_payload(f.subrange(1, f.len() as int)) == payload
        }),
{
    let f = frame_for_spec(payload, c1, c2);
    let data = f.subrange(1, f.len() as int);
    assert(data[2] == payload.len() + 2);
    assert(frame_ok(data));
    assert(frame_payload(data) =~= payload);
}

} // verus!
