//! Field extraction from raw 802.11 frames, as done inside the radio's
//! receive callback.
//!
//! Only fixed header offsets are read: the type/subtype bit-fields of byte
//! 0, the destination address at bytes 4..10 and the source address at
//! bytes 10..16. A frame shorter than those 16 bytes is rejected outright;
//! nothing else about the frame is validated or retained.

use vstd::prelude::*;

use crate::mac::{spec_mac_at, MacAddress, MAC_LEN};
use crate::queue::{spec_offer, MacQueue};

verus! {

/// Least frame length that covers every field read.
pub const FRAME_MIN_LEN: usize = 16;

/// Byte offset of the destination address.
pub const FRAME_DEST_OFFSET: usize = 4;

/// Byte offset of the source address.
pub const FRAME_SRC_OFFSET: usize = 10;

/// The fields read from one raw frame; the rest of the frame is dropped.
#[derive(Clone, Copy, Debug)]
pub struct ParsedFrame {
    pub frame_type: u8,
    pub frame_subtype: u8,
    pub destination_mac: MacAddress,
    pub source_mac: MacAddress,
}

/// Frame type: bits 2..4 of byte 0.
pub open spec fn spec_frame_type(byte0: u8) -> u8 {
    (byte0 & 0x0C) >> 2
}

/// Frame subtype: bits 4..8 of byte 0.
pub open spec fn spec_frame_subtype(byte0: u8) -> u8 {
    (byte0 & 0xF0) >> 4
}

/// Extract the header fields, or nothing if the buffer does not cover them.
pub fn parse_frame(buf: &[u8]) -> (r: Option<ParsedFrame>)
    ensures
        r is Some <==> buf@.len() >= FRAME_MIN_LEN,
        r matches Some(frame) ==> {
            &&& frame.frame_type == spec_frame_type(buf@[0])
            &&& frame.frame_subtype == spec_frame_subtype(buf@[0])
            &&& frame.destination_mac == spec_mac_at(buf@, FRAME_DEST_OFFSET as int)
            &&& frame.source_mac == spec_mac_at(buf@, FRAME_SRC_OFFSET as int)
        },
{
    if buf.len() < FRAME_MIN_LEN {
        return None;
    }
    let byte0 = buf[0];
    Some(
        ParsedFrame {
            frame_type: (byte0 & 0x0C) >> 2,
            frame_subtype: (byte0 & 0xF0) >> 4,
            destination_mac: MacAddress::from_slice(buf, FRAME_DEST_OFFSET),
            source_mac: MacAddress::from_slice(buf, FRAME_SRC_OFFSET),
        },
    )
}

/// Human-readable name of a frame type, as logged while scanning.
pub fn frame_type_label(frame_type: u8) -> (label: &'static str)
    ensures
        frame_type == 0 ==> label@ == "Management"@,
        frame_type == 1 ==> label@ == "Control"@,
        frame_type == 2 ==> label@ == "Data"@,
        frame_type == 3 ==> label@ == "Extension"@,
        frame_type > 3 ==> label@ == "Unknown"@,
{
    match frame_type {
        0 => "Management",
        1 => "Control",
        2 => "Data",
        3 => "Extension",
        _ => "Unknown",
    }
}

/// What the receive callback leaves in the queue: for a frame long enough,
/// the destination then the source address are each offered without
/// blocking (and dropped if the queue is full); a short frame changes
/// nothing.
pub open spec fn spec_ingest(
    contents: Seq<MacAddress>,
    capacity: nat,
    buf: Seq<u8>,
) -> Seq<MacAddress> {
    if buf.len() >= FRAME_MIN_LEN {
        spec_offer(
            spec_offer(contents, capacity, spec_mac_at(buf, FRAME_DEST_OFFSET as int)),
            capacity,
            spec_mac_at(buf, FRAME_SRC_OFFSET as int),
        )
    } else {
        contents
    }
}

/// Receive-callback body: parse the frame and offer both addresses to the
/// hand-off queue. Never blocks; a full queue silently drops the sample.
pub fn ingest_frame(queue: &mut MacQueue, buf: &[u8])
    requires
        old(queue).wf(),
    ensures
        final(queue).wf(),
        final(queue).spec_capacity() == old(queue).spec_capacity(),
        final(queue)@ == spec_ingest(old(queue)@, old(queue).spec_capacity(), buf@),
{
    if let Some(frame) = parse_frame(buf) {
        let _ = queue.try_send(frame.destination_mac);
        let _ = queue.try_send(frame.source_mac);
    }
}

} // verus!
