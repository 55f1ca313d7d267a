//! The Ethernet II framing around an EtherCAT payload. The header is read
//! and written by `smoltcp`; what each of its calls does to the bytes is
//! stated here and taken on trust.

use vstd::prelude::*;
use smoltcp::wire::{EthernetAddress, EthernetFrame, EthernetProtocol};

verus! {

/// Length of an Ethernet II header: destination, source, EtherType.
pub const ETHERNET_HEADER_LEN: usize = 14;

/// The value of two bytes read as a big-endian `u16`.
pub open spec fn spec_u16_from_be(hi: u8, lo: u8) -> u16 {
    (256 * hi as int + lo as int) as u16
}

/// The two bytes of a `u16`, most significant first.
pub open spec fn spec_u16_to_be(value: u16) -> Seq<u8> {
    seq![(value / 256) as u8, (value % 256) as u8]
}

/// The bytes of an Ethernet II frame with the given header fields and payload.
pub open spec fn spec_ethernet_frame(
    dst: Seq<u8>,
    src: Seq<u8>,
    ethertype: u16,
    payload: Seq<u8>,
) -> Seq<u8> {
    dst + src + spec_u16_to_be(ethertype) + payload
}

/// `bytes` with the six bytes from `at` on replaced by `addr`.
pub open spec fn spec_with_addr(bytes: Seq<u8>, at: int, addr: Seq<u8>) -> Seq<u8> {
    Seq::new(bytes.len(), |i: int| if at <= i < at + 6 { addr[i - at] } else { bytes[i] })
}

/// `bytes` with bytes 12 and 13 replaced by `ethertype`, most significant
/// byte first.
pub open spec fn spec_with_ethertype(bytes: Seq<u8>, ethertype: u16) -> Seq<u8> {
    bytes.update(12, (ethertype / 256) as u8).update(13, (ethertype % 256) as u8)
}

/// Calls `EthernetFrame::new_checked`, which accepts a buffer exactly when
/// it is long enough to hold an Ethernet II header.
#[verifier::external_body]
pub(crate) fn frame_is_checked(buffer: &[u8]) -> (ok: bool)
    ensures
        ok == (buffer@.len() >= ETHERNET_HEADER_LEN),
{
    EthernetFrame::new_checked(buffer).is_ok()
}

/// Calls `EthernetFrame::ethertype`, which reads bytes 12 and 13 as a
/// big-endian number.
#[verifier::external_body]
pub(crate) fn frame_ethertype(buffer: &[u8]) -> (ethertype: u16)
    requires
        buffer@.len() >= ETHERNET_HEADER_LEN,
    ensures
        ethertype == spec_u16_from_be(buffer@[12], buffer@[13]),
{
    u16::from(EthernetFrame::new_unchecked(buffer).ethertype())
}

/// Calls `EthernetFrame::src_addr`, which copies bytes 6 to 11.
#[verifier::external_body]
pub(crate) fn frame_src_addr(buffer: &[u8]) -> (addr: [u8; 6])
    requires
        buffer@.len() >= ETHERNET_HEADER_LEN,
    ensures
        addr@ == buffer@.subrange(6, 12),
{
    EthernetFrame::new_unchecked(buffer).src_addr().0
}

/// Calls `EthernetFrame::payload`, which hands out everything after the
/// fourteen header bytes.
#[verifier::external_body]
pub(crate) fn frame_payload<'a>(buffer: &'a [u8]) -> (payload: &'a [u8])
    requires
        buffer@.len() >= ETHERNET_HEADER_LEN,
    ensures
        payload@ == buffer@.skip(ETHERNET_HEADER_LEN as int),
{
    EthernetFrame::new_unchecked(buffer).payload()
}

/// Calls `EthernetFrame::set_dst_addr`, which overwrites bytes 0 to 5 and
/// nothing else.
#[verifier::external_body]
pub(crate) fn frame_set_dst_addr(buffer: &mut [u8], addr: [u8; 6])
    requires
        old(buffer)@.len() >= ETHERNET_HEADER_LEN,
    ensures
        final(buffer)@ == spec_with_addr(old(buffer)@, 0, addr@),
{
    EthernetFrame::new_unchecked(buffer).set_dst_addr(EthernetAddress(addr))
}

/// Calls `EthernetFrame::set_src_addr`, which overwrites bytes 6 to 11 and
/// nothing else.
#[verifier::external_body]
pub(crate) fn frame_set_src_addr(buffer: &mut [u8], addr: [u8; 6])
    requires
        old(buffer)@.len() >= ETHERNET_HEADER_LEN,
    ensures
        final(buffer)@ == spec_with_addr(old(buffer)@, 6, addr@),
{
    EthernetFrame::new_unchecked(buffer).set_src_addr(EthernetAddress(addr))
}

/// Calls `EthernetFrame::set_ethertype`, which overwrites bytes 12 and 13
/// with the number, most significant byte first, and nothing else.
#[verifier::external_body]
pub(crate) fn frame_set_ethertype(buffer: &mut [u8], ethertype: u16)
    requires
        old(buffer)@.len() >= ETHERNET_HEADER_LEN,
    ensures
        final(buffer)@ == spec_with_ethertype(old(buffer)@, ethertype),
{
    EthernetFrame::new_unchecked(buffer).set_ethertype(EthernetProtocol::from(ethertype))
}

/// Writes an Ethernet II header over the first fourteen bytes of `buffer`.
pub fn write_ethernet_header(buffer: &mut [u8], dst: [u8; 6], src: [u8; 6], ethertype: u16)
    requires
        old(buffer)@.len() >= ETHERNET_HEADER_LEN,
    ensures
        final(buffer)@ == spec_ethernet_frame(
            dst@,
            src@,
            ethertype,
            old(buffer)@.skip(ETHERNET_HEADER_LEN as int),
        ),
{
    frame_set_dst_addr(buffer, dst);
    frame_set_src_addr(buffer, src);
    frame_set_ethertype(buffer, ethertype);
    assert(buffer@ =~= spec_ethernet_frame(
        dst@,
        src@,
        ethertype,
        old(buffer)@.skip(ETHERNET_HEADER_LEN as int),
    ));
}

/// The header fields of a frame that was built from them read back as they
/// were put in, and so does the payload.
pub proof fn lemma_ethernet_round_trip(dst: Seq<u8>, src: Seq<u8>, ethertype: u16, payload: Seq<u8>)
    requires
        dst.len() == 6,
        src.len() == 6,
    ensures
        ({
            let bytes = spec_ethernet_frame(dst, src, ethertype, payload);
            &&& bytes.len() == ETHERNET_HEADER_LEN + payload.len()
            &&& bytes.subrange(0, 6) == dst
            &&& bytes.subrange(6, 12) == src
            &&& spec_u16_from_be(bytes[12], bytes[13]) == ethertype
            &&& bytes.skip(ETHERNET_HEADER_LEN as int) == payload
        }),
{
    let bytes = spec_ethernet_frame(dst, src, ethertype, payload);
    assert(bytes.subrange(0, 6) =~= dst);
    assert(bytes.subrange(6, 12) =~= src);
    assert(bytes.skip(ETHERNET_HEADER_LEN as int) =~= payload);
}

} // verus!
