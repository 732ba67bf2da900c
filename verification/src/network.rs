//! The telescope's network protocol.
//!
//! Each packet starts with a two-byte tag in the machine's native byte order
//! (as the `bytes` crate's `put_u16_ne` writes it; `vstd::endian::endianness`
//! stands for that order), followed by its payload:
//! the configuration as JSON text, or a frame in its binary encoding. Clients
//! send tagged packets too; of these, the shutdown tag ends the session.
use bytes::{Buf, BufMut};
use vstd::prelude::*;

use crate::codec::{be_u16, u16_from_be};
use crate::frame::{frame_bytes, Frame};

verus! {

/// Tag of a packet holding the configuration.
pub const TAG_CONFIG: u16 = 0x0001;

/// Tag of a packet asking the telescope to shut down.
pub const TAG_SHUTDOWN: u16 = 0x0002;

/// Tag of a packet holding a frame.
pub const TAG_FRAME: u16 = 0x0003;

/// The two bytes of `x`, least significant first.
pub open spec fn le_u16(x: u16) -> Seq<u8> {
    seq![x as u8, (x >> 8u16) as u8]
}

/// The value of the first two bytes of `s`, read least significant first.
pub open spec fn u16_from_le(s: Seq<u8>) -> u16 {
    (s[0] as u16) | ((s[1] as u16) << 8u16)
}

/// The two bytes of `x` in the byte order of the machine the code runs on.
pub open spec fn ne_u16(x: u16) -> Seq<u8> {
    match vstd::endian::endianness() {
        vstd::endian::Endian::Little => le_u16(x),
        vstd::endian::Endian::Big => be_u16(x),
    }
}

/// The value of the first two bytes of `s`, in the byte order of the machine
/// the code runs on.
pub open spec fn u16_from_ne(s: Seq<u8>) -> u16 {
    match vstd::endian::endianness() {
        vstd::endian::Endian::Little => u16_from_le(s),
        vstd::endian::Endian::Big => u16_from_be(s),
    }
}

/// `BufMut::put_u16_ne` from `bytes`, on a `Vec<u8>`: appends the two bytes
/// of `tag` in the machine's byte order.
#[verifier::external_body]
fn put_tag(out: &mut Vec<u8>, tag: u16)
    ensures
        final(out)@ == old(out)@ + ne_u16(tag),
{
    out.put_u16_ne(tag);
}

/// `Buf::get_u16_ne` from `bytes`, on the packet as a byte slice: the value
/// of its first two bytes in the machine's byte order. It panics on fewer
/// than two bytes, which `requires` rules out.
#[verifier::external_body]
fn get_tag(packet: &[u8]) -> (r: u16)
    requires
        packet@.len() >= 2,
    ensures
        r == u16_from_ne(packet@),
{
    let mut buf: &[u8] = packet;
    buf.get_u16_ne()
}

/// A packet: the tag in the machine's byte order, then the payload.
pub open spec fn packet_bytes(tag: u16, payload: Seq<u8>) -> Seq<u8> {
    ne_u16(tag) + payload
}

/// A tag written in the machine's byte order reads back, whatever follows.
pub proof fn lemma_tag_roundtrip(tag: u16, rest: Seq<u8>)
    ensures
        ne_u16(tag).len() == 2,
        u16_from_ne(ne_u16(tag) + rest) == tag,
{
    let s = ne_u16(tag) + rest;
    assert(le_u16(tag).len() == 2);
    let lo = tag as u8;
    let hi = (tag >> 8u16) as u8;
    assert(((lo as u16) | ((hi as u16) << 8u16)) == tag) by (bit_vector)
        requires
            lo == tag as u8,
            hi == (tag >> 8u16) as u8,
    ;
    assert(((hi as u16) << 8u16 | (lo as u16)) == tag) by (bit_vector)
        requires
            lo == tag as u8,
            hi == (tag >> 8u16) as u8,
    ;
    match vstd::endian::endianness() {
        vstd::endian::Endian::Little => {
            assert(s[0] == lo && s[1] == hi);
        },
        vstd::endian::Endian::Big => {
            crate::codec::lemma_u16_roundtrip(tag);
            assert(s.subrange(0, 2) =~= be_u16(tag));
        },
    }
}

/// What the telescope sends, a client reads back: the command read from a
/// packet is the one its tag stands for.
pub proof fn lemma_packet_command(tag: u16, payload: Seq<u8>)
    ensures
        packet_bytes(tag, payload).len() >= 2,
        command_of(u16_from_ne(packet_bytes(tag, payload))) == command_of(tag),
{
    lemma_tag_roundtrip(tag, payload);
}

/// The packet that sends the configuration (`config_json`, JSON text).
pub fn config_packet(config_json: &[u8]) -> (r: Vec<u8>)
    ensures
        r@ == packet_bytes(TAG_CONFIG, config_json@),
{
    let mut out: Vec<u8> = Vec::new();
    put_tag(&mut out, TAG_CONFIG);
    out.extend_from_slice(config_json);
    assert(out@ =~= packet_bytes(TAG_CONFIG, config_json@));
    out
}

/// The packet that sends a frame. The bin count must fit into 32 bits.
pub fn frame_packet(frame: &Frame) -> (r: Vec<u8>)
    requires
        frame.bins@.len() <= u32::MAX,
    ensures
        r@ == packet_bytes(TAG_FRAME, frame_bytes(frame@)),
{
    let mut out: Vec<u8> = Vec::new();
    put_tag(&mut out, TAG_FRAME);
    frame.write(&mut out);
    assert(out@ =~= packet_bytes(TAG_FRAME, frame_bytes(frame@)));
    out
}

/// A command that a client sends.
#[derive(Clone, Copy, Debug, PartialEq, Eq)]
pub enum Command {
    /// A configuration (accepted and ignored for now).
    Config,
    /// End the session and stop serving.
    Shutdown,
    /// A tag this protocol does not know.
    Unrecognized { tag: u16 },
}

/// The command that a tag stands for.
pub open spec fn command_of(tag: u16) -> Command {
    if tag == TAG_CONFIG {
        Command::Config
    } else if tag == TAG_SHUTDOWN {
        Command::Shutdown
    } else {
        Command::Unrecognized { tag }
    }
}

/// The command that a tag stands for.
pub fn command_for_tag(tag: u16) -> (r: Command)
    ensures
        r == command_of(tag),
{
    if tag == TAG_CONFIG {
        Command::Config
    } else if tag == TAG_SHUTDOWN {
        Command::Shutdown
    } else {
        Command::Unrecognized { tag }
    }
}

/// The command in a packet received from a client, which must hold at least
/// the two bytes of its tag (reading a shorter one panics).
pub fn read_command(packet: &[u8]) -> (r: Command)
    requires
        packet@.len() >= 2,
    ensures
        r == command_of(u16_from_ne(packet@)),
{
    command_for_tag(get_tag(packet))
}

} // verus!
