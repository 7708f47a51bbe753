//! The USB device hardware model: the state the runtime drives through the
//! three hardware operations (poll next bus event, start a transfer, abort a
//! transfer), and the per-endpoint transfer protocol built on them.
//!
//! The model keeps what the hardware holds for the device: the assigned
//! address, the attach and enable switches, endpoint-0 stall, per-endpoint
//! enable and in-flight bits, and the two packet streams — `sent` for IN
//! packets handed to the host, `host_out` for OUT packets the host has
//! queued and the device has not yet consumed.  Bus events and received
//! packets enter as plain values; everything the runtime decides about them
//! is a verified function here.

use vstd::prelude::*;

use crate::Runtime;

verus! {

/// Bit index of an endpoint address in the per-endpoint bitmaps: the
/// endpoint number doubled, plus one for the IN direction.
pub open spec fn spec_ep_bit(ep: u8) -> u8 {
    ((ep & 0x0f) << 1) | (ep >> 7)
}

/// Bitmap mask of an endpoint address.
pub open spec fn spec_ep_mask(ep: u8) -> u32 {
    1u32 << (spec_ep_bit(ep) as u32)
}

/// Bitmap mask of an endpoint address; one bit per endpoint number and
/// direction.
pub fn ep_enabled_mask(ep: u8) -> (r: u32)
    ensures
        r == spec_ep_mask(ep),
{
    let bit = ((ep & 0x0f) << 1) | (ep >> 7);
    proof {
        assert(((ep & 0x0f) << 1) | (ep >> 7) < 32) by (bit_vector);
    }
    1u32 << (bit as u32)
}

/// Abstract state of the USB device hardware as the runtime sees it.
pub struct UsbModel {
    /// The device address programmed into the hardware.
    pub address: u8,
    /// Whether the peripheral is enabled (clocked and configured).
    pub enabled: bool,
    /// Whether the bus pull-up is presented to the host.
    pub attached: bool,
    /// Whether endpoint 0 is stalled, rejecting the control transfer.
    pub ep0_stalled: bool,
    /// Ownership bitmap: endpoints currently owned by some endpoint object.
    pub ep_owned: u32,
    /// Hardware enable bitmap: endpoints configured for transfers.
    pub ep_active: u32,
    /// In-flight bitmap: endpoints with a transfer the hardware owns.
    pub in_flight: u32,
    /// IN packets handed to the host, oldest first, each tagged with its
    /// endpoint address.
    pub sent: Seq<(u8, Seq<u8>)>,
    /// OUT packets queued by the host and not yet consumed, oldest first.
    pub host_out: Seq<(u8, Seq<u8>)>,
}

/// Shared handle to the USB device state, used by endpoint objects and the
/// control pipe alike.
pub struct UsbShared {
    rt: Runtime,
    address: u8,
    enabled: bool,
    attached: bool,
    ep0_stalled: bool,
    ep_owned: u32,
    ep_active: u32,
    in_flight: u32,
    sent: Vec<(u8, Vec<u8>)>,
    host_out: Vec<(u8, Vec<u8>)>,
}

impl View for UsbShared {
    type V = UsbModel;

    closed spec fn view(&self) -> UsbModel {
        UsbModel {
            address: self.address,
            enabled: self.enabled,
            attached: self.attached,
            ep0_stalled: self.ep0_stalled,
            ep_owned: self.ep_owned,
            ep_active: self.ep_active,
            in_flight: self.in_flight,
            sent: self.sent@.map_values(|p: (u8, Vec<u8>)| (p.0, p.1@)),
            host_out: self.host_out@.map_values(|p: (u8, Vec<u8>)| (p.0, p.1@)),
        }
    }
}

impl UsbShared {
    /// The task-context token the device was initialized under.
    pub fn rt(&self) -> Runtime {
        self.rt
    }

    /// Re-arm endpoint 0 for control transfers, as done on every bus reset:
    /// both directions of endpoint 0 become active and any stall is
    /// cleared.
    pub fn configure_ep0(&mut self)
        ensures
            final(self)@ == (UsbModel {
                ep0_stalled: false,
                ep_active: old(self)@.ep_active | spec_ep_mask(0x00) | spec_ep_mask(0x80),
                ..old(self)@
            }),
    {
        let m0 = ep_enabled_mask(0x00);
        let m1 = ep_enabled_mask(0x80);
        self.ep_active = self.ep_active | m0 | m1;
        self.ep0_stalled = false;
    }

    /// Stall endpoint 0, rejecting the control transfer in progress.
    pub fn stall_ep0(&mut self)
        ensures
            final(self)@ == (UsbModel { ep0_stalled: true, ..old(self)@ }),
    {
        self.ep0_stalled = true;
    }

    /// Program the device address into the hardware.
    pub fn set_address(&mut self, addr: u8)
        ensures
            final(self)@ == (UsbModel { address: addr, ..old(self)@ }),
    {
        self.address = addr;
    }

    /// Enable the hardware endpoint for transfers.
    pub fn enable_ep(&mut self, ep: u8)
        ensures
            final(self)@ == (UsbModel {
                ep_active: old(self)@.ep_active | spec_ep_mask(ep),
                ..old(self)@
            }),
    {
        let m = ep_enabled_mask(ep);
        self.ep_active = self.ep_active | m;
    }

    /// Disable the hardware endpoint.
    pub fn disable_ep(&mut self, ep: u8)
        ensures
            final(self)@ == (UsbModel {
                ep_active: old(self)@.ep_active & !spec_ep_mask(ep),
                ..old(self)@
            }),
    {
        let m = ep_enabled_mask(ep);
        self.ep_active = self.ep_active & !m;
    }

    /// Buffer address of an endpoint relative to the start of the packet
    /// RAM: endpoint 0 shares the control buffer at 0x100, every other
    /// endpoint-direction pair has a 64-byte buffer of its own after it.
    pub fn buffer_address(&self, ep: u8) -> (r: u16)
        ensures
            (ep & 0xF) == 0 ==> r == 0x100,
            (ep & 0xF) != 0 ==> r == 0x100 + 0x40 * (((ep & 0xF) << 1 | (ep >> 7)) as u16),
    {
        if ep & 0xF == 0 {
            0x100
        } else {
            0x100 + 0x40 * ((ep & 0xF) << 1 | (ep >> 7)) as u16
        }
    }

    /// Hand the hardware a transfer on the endpoint: program the descriptor
    /// bank and set the ready bit.  The endpoint must not already have a
    /// transfer in flight.
    pub fn begin_transfer(&mut self, ep: u8)
        requires
            old(self)@.in_flight & spec_ep_mask(ep) == 0,
        ensures
            final(self)@ == (UsbModel {
                in_flight: old(self)@.in_flight | spec_ep_mask(ep),
                ..old(self)@
            }),
    {
        let m = ep_enabled_mask(ep);
        self.in_flight = self.in_flight | m;
    }

    /// The drop path of an in-flight transfer: issue the hardware abort
    /// sequence, wait for its completion, and reclaim the buffer.  The
    /// endpoint is idle afterwards; its ownership, its enable bit and both
    /// packet streams are untouched, so a subsequent transfer on the same
    /// endpoint proceeds normally.
    pub fn cancel_transfer(&mut self, ep: u8)
        ensures
            final(self)@ == (UsbModel {
                in_flight: old(self)@.in_flight & !spec_ep_mask(ep),
                ..old(self)@
            }),
            final(self)@.in_flight & spec_ep_mask(ep) == 0,
            final(self)@.ep_owned == old(self)@.ep_owned,
            final(self)@.ep_active == old(self)@.ep_active,
            final(self)@.sent == old(self)@.sent,
            final(self)@.host_out == old(self)@.host_out,
    {
        let m = ep_enabled_mask(ep);
        let ghost before = self.in_flight;
        self.in_flight = self.in_flight & !m;
        proof {
            let f = self.in_flight;
            assert(f == before & !m ==> f & m == 0) by (bit_vector);
        }
    }

    /// Normal completion of a transfer: the hardware handed the buffer
    /// back.
    fn end_transfer(&mut self, ep: u8)
        ensures
            final(self)@ == (UsbModel {
                in_flight: old(self)@.in_flight & !spec_ep_mask(ep),
                ..old(self)@
            }),
    {
        let m = ep_enabled_mask(ep);
        self.in_flight = self.in_flight & !m;
    }

    /// A packet arriving from the host on an OUT endpoint: the hardware
    /// queues it until the runtime consumes it.  This is the seam where bus
    /// traffic enters the model; the harness driving the device calls it
    /// for each packet the host sends.
    pub fn host_queue_out(&mut self, ep: u8, packet: Vec<u8>)
        requires
            packet@.len() <= 64,
            ep & 0x80 == 0,
        ensures
            final(self)@ == (UsbModel {
                host_out: old(self)@.host_out.push((ep, packet@)),
                ..old(self)@
            }),
    {
        let ghost before = self.host_out@;
        self.host_out.push((ep, packet));
        proof {
            assert(self.host_out@.map_values(|p: (u8, Vec<u8>)| (p.0, p.1@)) =~= before.map_values(
                |p: (u8, Vec<u8>)| (p.0, p.1@),
            ).push((ep, self.host_out@.last().1@)));
        }
    }
}

/// The hardware transfer size codes of the per-endpoint descriptor bank.
#[derive(Clone, Copy, PartialEq, Eq, Structural)]
pub enum PacketSize {
    Size8,
    Size16,
    Size32,
    Size64,
    Size128,
    Size256,
    Size512,
    Size1023,
}

impl PacketSize {
    /// The numeric code the hardware stores for this size.
    pub open spec fn spec_code(self) -> u32 {
        match self {
            PacketSize::Size8 => 0,
            PacketSize::Size16 => 1,
            PacketSize::Size32 => 2,
            PacketSize::Size64 => 3,
            PacketSize::Size128 => 4,
            PacketSize::Size256 => 5,
            PacketSize::Size512 => 6,
            PacketSize::Size1023 => 7,
        }
    }

    /// The numeric code the hardware stores for this size.
    pub fn code(self) -> (r: u32)
        ensures
            r == self.spec_code(),
    {
        match self {
            PacketSize::Size8 => 0,
            PacketSize::Size16 => 1,
            PacketSize::Size32 => 2,
            PacketSize::Size64 => 3,
            PacketSize::Size128 => 4,
            PacketSize::Size256 => 5,
            PacketSize::Size512 => 6,
            PacketSize::Size1023 => 7,
        }
    }

    /// The packet size in bytes this code selects.
    pub fn value(self) -> (r: usize)
        ensures
            r == match self {
                PacketSize::Size8 => 8int,
                PacketSize::Size16 => 16,
                PacketSize::Size32 => 32,
                PacketSize::Size64 => 64,
                PacketSize::Size128 => 128,
                PacketSize::Size256 => 256,
                PacketSize::Size512 => 512,
                PacketSize::Size1023 => 1023,
            },
    {
        match self {
            PacketSize::Size8 => 8,
            PacketSize::Size16 => 16,
            PacketSize::Size32 => 32,
            PacketSize::Size64 => 64,
            PacketSize::Size128 => 128,
            PacketSize::Size256 => 256,
            PacketSize::Size512 => 512,
            PacketSize::Size1023 => 1023,
        }
    }
}

/// Per-endpoint data descriptor bank shared with the hardware: the buffer
/// address and the packed size/count word.
pub struct EndpointBank {
    /// The buffer address programmed into the bank.
    pub addr: u32,
    /// The packed word: transfer byte count or multi-packet size in the low
    /// bits, size code in bits 28 and up.
    pub pcksize: u32,
}

impl EndpointBank {
    /// A cleared bank, as the hardware sees it after reset.
    pub fn new() -> (b: EndpointBank)
        ensures
            b.addr == 0,
            b.pcksize == 0,
    {
        EndpointBank { addr: 0, pcksize: 0 }
    }

    /// Program the bank for reception: buffer address, multi-packet size in
    /// bits 14..28, size code in bits 28..31.
    pub fn prepare_out(&mut self, packet_size: PacketSize, addr: u32, len: u32)
        requires
            len < (1u32 << 14),
        ensures
            final(self).addr == addr,
            final(self).pcksize == (len << 14) | (packet_size.spec_code() << 28),
    {
        self.addr = addr;
        self.pcksize = (len << 14) | (packet_size.code() << 28);
    }

    /// Number of bytes the hardware wrote on the last reception: the low 14
    /// bits of the packed word.
    pub fn out_len(&self) -> (r: u32)
        ensures
            r == self.pcksize & 0x3FFF,
    {
        self.pcksize & 0x3FFF
    }

    /// Program the bank for transmission: buffer address, byte count in the
    /// low bits, size code in bits 28..31.
    pub fn prepare_in(&mut self, packet_size: PacketSize, addr: u32, len: u32)
        requires
            len < (1u32 << 14),
        ensures
            final(self).addr == addr,
            final(self).pcksize == len | (packet_size.spec_code() << 28),
    {
        self.addr = addr;
        self.pcksize = len | (packet_size.code() << 28);
    }
}

/// Reading the received length out of a bank programmed for reception gives
/// back exactly the programmed multi-packet size field's low half: writing
/// a count below 2^14 and reading it round-trips.
pub proof fn lemma_bank_out_len_roundtrip(len: u32, code: u32)
    requires
        len < (1u32 << 14),
        code < 8,
    ensures
        (len | (code << 28)) & 0x3FFF == len & 0x3FFF,
{
    assert(len < (1u32 << 14) && code < 8 ==> ((len | (code << 28)) & 0x3FFF) == (len & 0x3FFF))
        by (bit_vector);
}


/// A byte string split into packets of at most 64 bytes; all but the last
/// packet are full, and empty data yields no packets.
pub open spec fn chunks64(data: Seq<u8>) -> Seq<Seq<u8>>
    decreases data.len(),
{
    if data.len() == 0 {
        Seq::<Seq<u8>>::empty()
    } else if data.len() <= 64 {
        seq![data]
    } else {
        seq![data.take(64)] + chunks64(data.skip(64))
    }
}

/// The packets a transfer of `data` puts on the wire: its 64-byte chunks,
/// with a zero-length packet appended when there is no data at all, or when
/// `zlp` was requested and the data ends on a packet boundary.
pub open spec fn send_packets(data: Seq<u8>, zlp: bool) -> Seq<Seq<u8>> {
    if data.len() == 0 || (zlp && data.len() % 64 == 0) {
        chunks64(data).push(Seq::<u8>::empty())
    } else {
        chunks64(data)
    }
}

/// Packets tagged with the endpoint they travel on.
pub open spec fn tag_packets(ep: u8, ps: Seq<Seq<u8>>) -> Seq<(u8, Seq<u8>)> {
    ps.map_values(|p: Seq<u8>| (ep, p))
}

/// Prepending one byte string to a concatenation.
proof fn lemma_concat_all_cons(x: Seq<u8>, s: Seq<Seq<u8>>)
    ensures
        crate::usb::descriptors::concat_all(seq![x] + s) == x
            + crate::usb::descriptors::concat_all(s),
    decreases s.len(),
{
    if s.len() == 0 {
        assert((seq![x] + s).drop_last() =~= Seq::<Seq<u8>>::empty());
        assert((seq![x] + s).last() == x);
        assert(crate::usb::descriptors::concat_all(seq![x] + s)
            == crate::usb::descriptors::concat_all((seq![x] + s).drop_last()) + (seq![x]
            + s).last());
        assert(crate::usb::descriptors::concat_all(Seq::<Seq<u8>>::empty())
            =~= Seq::<u8>::empty());
        assert(x + crate::usb::descriptors::concat_all(s) =~= x);
        assert(Seq::<u8>::empty() + x =~= x);
    } else {
        assert((seq![x] + s).drop_last() =~= seq![x] + s.drop_last());
        assert((seq![x] + s).last() == s.last());
        lemma_concat_all_cons(x, s.drop_last());
        assert(x + crate::usb::descriptors::concat_all(s.drop_last()) + s.last() =~= x
            + crate::usb::descriptors::concat_all(s));
    }
}

/// Packetization loses nothing: the packets of a transfer, concatenated in
/// order, are exactly the transferred bytes, and each packet holds at most
/// 64 bytes.
pub proof fn lemma_send_packets_flatten(data: Seq<u8>, zlp: bool)
    ensures
        crate::usb::descriptors::concat_all(send_packets(data, zlp)) == data,
        forall|i: int|
            0 <= i < send_packets(data, zlp).len() ==> (#[trigger] send_packets(
                data,
                zlp,
            )[i]).len() <= 64,
    decreases data.len(),
{
    lemma_chunks64_flatten(data);
    let c = chunks64(data);
    if data.len() == 0 || (zlp && data.len() % 64 == 0) {
        assert(c.push(Seq::<u8>::empty()).drop_last() =~= c);
        assert(crate::usb::descriptors::concat_all(c) + Seq::<u8>::empty() =~= data);
        assert forall|i: int|
            0 <= i < c.push(Seq::<u8>::empty()).len() implies (#[trigger] c.push(
            Seq::<u8>::empty(),
        )[i]).len() <= 64 by {
            if i < c.len() {
                assert(c.push(Seq::<u8>::empty())[i] == c[i]);
            }
        }
    }
}

/// The 64-byte chunks of a byte string, concatenated, give it back, and
/// none exceeds 64 bytes.
pub proof fn lemma_chunks64_flatten(data: Seq<u8>)
    ensures
        crate::usb::descriptors::concat_all(chunks64(data)) == data,
        forall|i: int|
            0 <= i < chunks64(data).len() ==> (#[trigger] chunks64(data)[i]).len() <= 64,
    decreases data.len(),
{
    if data.len() == 0 {
        assert(crate::usb::descriptors::concat_all(chunks64(data)) =~= data);
    } else if data.len() <= 64 {
        assert(chunks64(data).drop_last() =~= Seq::<Seq<u8>>::empty());
        assert(crate::usb::descriptors::concat_all(chunks64(data))
            == crate::usb::descriptors::concat_all(chunks64(data).drop_last())
            + chunks64(data).last());
        assert(crate::usb::descriptors::concat_all(Seq::<Seq<u8>>::empty())
            =~= Seq::<u8>::empty());
        assert(Seq::<u8>::empty() + data =~= data);
    } else {
        lemma_chunks64_flatten(data.skip(64));
        lemma_concat_all_cons(data.take(64), chunks64(data.skip(64)));
        assert(data.take(64) + data.skip(64) =~= data);
        assert forall|i: int|
            0 <= i < chunks64(data).len() implies (#[trigger] chunks64(data)[i]).len() <= 64 by {
            if i > 0 {
                assert(chunks64(data)[i] == chunks64(data.skip(64))[i - 1]);
            }
        }
    }
}

impl UsbShared {
    /// Transmit `len(data)` bytes on an IN endpoint as a sequence of
    /// packets of at most 64 bytes, appending a zero-length packet when
    /// `zlp` is requested and the data is a positive multiple of 64 (and
    /// when there is no data at all, so the host still sees a transaction).
    /// Completes with the endpoint idle again.
    pub fn transfer_in(&mut self, ep: u8, data: &[u8], zlp: bool)
        requires
            ep & 0x80 == 0x80,
            old(self)@.in_flight & spec_ep_mask(ep) == 0,
        ensures
            final(self)@ == (UsbModel {
                sent: old(self)@.sent + tag_packets(ep, send_packets(data@, zlp)),
                ..old(self)@
            }),
    {
        let ghost all = data@;
        let ghost m0 = self@;
        proof {
            assert(data.len() == data@.len());
        }
        self.begin_transfer(ep);
        let ghost mut done: Seq<Seq<u8>> = Seq::empty();
        let mut o: usize = 0;
        proof {
            assert(all.skip(0) =~= all);
            assert(done + chunks64(all.skip(0)) =~= chunks64(all));
            assert(tag_packets(ep, done) =~= Seq::<(u8, Seq<u8>)>::empty());
            assert(self@.sent =~= m0.sent + tag_packets(ep, done));
        }
        while o < data.len()
            invariant
                o <= all.len(),
                all.len() <= usize::MAX,
                all == data@,
                ep & 0x80 == 0x80,
                done + chunks64(all.skip(o as int)) == chunks64(all),
                self@ == (UsbModel {
                    sent: m0.sent + tag_packets(ep, done),
                    in_flight: m0.in_flight | spec_ep_mask(ep),
                    ..m0
                }),
            decreases all.len() - o,
        {
            let remaining = data.len() - o;
            let k = if remaining < 64 {
                remaining
            } else {
                64
            };
            let mut pkt: Vec<u8> = Vec::new();
            let mut j: usize = 0;
            while j < k
                invariant
                    j <= k,
                    o + k <= all.len(),
                    all.len() <= usize::MAX,
                    all == data@,
                    pkt@ == all.subrange(o as int, o + j),
                decreases k - j,
            {
                pkt.push(data[o + j]);
                proof {
                    assert(all.subrange(o as int, o + j + 1) =~= all.subrange(o as int, o + j).push(
                        all[o + j],
                    ));
                }
                j = j + 1;
            }
            proof {
                let rest = all.skip(o as int);
                if rest.len() <= 64 {
                    assert(pkt@ =~= rest);
                    assert(all.skip(o + k) =~= Seq::<u8>::empty());
                    assert(chunks64(rest) =~= seq![pkt@] + chunks64(all.skip(o + k)));
                } else {
                    assert(pkt@ =~= rest.take(64));
                    assert(rest.skip(64) =~= all.skip(o + 64));
                    assert(chunks64(rest) =~= seq![pkt@] + chunks64(all.skip(o + k)));
                }
                assert(done.push(pkt@) + chunks64(all.skip(o + k)) =~= done + (seq![pkt@]
                    + chunks64(all.skip(o + k))));
            }
            let ghost sent_before = self.sent@;
            self.sent.push((ep, pkt));
            proof {
                assert(self.sent@.map_values(|p: (u8, Vec<u8>)| (p.0, p.1@))
                    =~= sent_before.map_values(|p: (u8, Vec<u8>)| (p.0, p.1@)).push(
                    (ep, self.sent@.last().1@),
                ));
                assert(tag_packets(ep, done.push(self.sent@.last().1@)) =~= tag_packets(
                    ep,
                    done,
                ).push((ep, self.sent@.last().1@)));
                done = done.push(self.sent@.last().1@);
                assert(self@.sent =~= m0.sent + tag_packets(ep, done));
            }
            o = o + k;
        }
        proof {
            assert(all.skip(all.len() as int) =~= Seq::<u8>::empty());
            assert(done + chunks64(all.skip(all.len() as int)) =~= done);
            assert(done == chunks64(all));
        }
        if data.len() == 0 || (zlp && data.len() % 64 == 0) {
            let ghost sent_before = self.sent@;
            let empty_pkt: Vec<u8> = Vec::new();
            self.sent.push((ep, empty_pkt));
            proof {
                assert(self.sent@.map_values(|p: (u8, Vec<u8>)| (p.0, p.1@))
                    =~= sent_before.map_values(|p: (u8, Vec<u8>)| (p.0, p.1@)).push(
                    (ep, Seq::<u8>::empty()),
                ));
                assert(tag_packets(ep, done.push(Seq::<u8>::empty())) =~= tag_packets(
                    ep,
                    done,
                ).push((ep, Seq::<u8>::empty())));
                done = done.push(Seq::<u8>::empty());
                assert(self@.sent =~= m0.sent + tag_packets(ep, done));
                assert(done == send_packets(all, zlp));
            }
        } else {
            proof {
                assert(done == send_packets(all, zlp));
            }
        }
        self.end_transfer(ep);
        proof {
            let f = self@.in_flight;
            let a = m0.in_flight;
            let m = spec_ep_mask(ep);
            assert(a & m == 0 && f == (a | m) & !m ==> f == a) by (bit_vector);
        }
    }

    /// Receive one packet from the host on an OUT endpoint: hand the buffer
    /// to the hardware, wait for the bank to come back, and read the
    /// received bytes.  Returns the packet, which holds at most 64 bytes.
    pub fn out_packet(&mut self, ep: u8) -> (r: Vec<u8>)
        requires
            old(self)@.in_flight & spec_ep_mask(ep) == 0,
            old(self)@.host_out.len() > 0,
            old(self)@.host_out[0].0 == ep,
            old(self)@.host_out[0].1.len() <= 64,
        ensures
            r@ == old(self)@.host_out[0].1,
            r@.len() <= 64,
            final(self)@ == (UsbModel {
                host_out: old(self)@.host_out.drop_first(),
                ..old(self)@
            }),
    {
        let ghost m0 = self@;
        self.begin_transfer(ep);
        let ghost before = self.host_out@;
        let entry = self.host_out.remove(0);
        proof {
            assert(self.host_out@.map_values(|p: (u8, Vec<u8>)| (p.0, p.1@)) =~= before.map_values(
                |p: (u8, Vec<u8>)| (p.0, p.1@),
            ).drop_first());
        }
        self.end_transfer(ep);
        proof {
            let f = self@.in_flight;
            let a = m0.in_flight;
            let m = spec_ep_mask(ep);
            assert(a & m == 0 && f == (a | m) & !m ==> f == a) by (bit_vector);
        }
        entry.1
    }

    /// Receive one packet into a buffer of capacity `cap` on an OUT
    /// endpoint.  The packet holds at most 64 bytes, so a 64-byte buffer
    /// always suffices.
    pub fn transfer_out(&mut self, ep: u8, cap: usize) -> (r: Vec<u8>)
        requires
            ep & 0x80 == 0,
            cap >= 64,
            old(self)@.in_flight & spec_ep_mask(ep) == 0,
            old(self)@.host_out.len() > 0,
            old(self)@.host_out[0].0 == ep,
            old(self)@.host_out[0].1.len() <= 64,
        ensures
            r@ == old(self)@.host_out[0].1,
            r@.len() <= cap,
            final(self)@ == (UsbModel {
                host_out: old(self)@.host_out.drop_first(),
                ..old(self)@
            }),
    {
        self.out_packet(ep)
    }
}

/// Exclusive access to the USB peripheral, handed to the application by
/// platform initialization.
pub struct Usb {
    /// The shared device state; endpoint objects and the control pipe all
    /// drive the hardware through it.
    pub usb: UsbShared,
}

impl Usb {
    /// The peripheral right after platform initialization: address zero,
    /// detached, nothing enabled, and both directions of endpoint 0 owned
    /// by the control pipe.
    pub fn new(rt: Runtime) -> (u: Usb)
        ensures
            u.usb@ == (UsbModel {
                address: 0,
                enabled: false,
                attached: false,
                ep0_stalled: false,
                ep_owned: spec_ep_mask(0x00) | spec_ep_mask(0x80),
                ep_active: 0,
                in_flight: 0,
                sent: Seq::<(u8, Seq<u8>)>::empty(),
                host_out: Seq::<(u8, Seq<u8>)>::empty(),
            }),
    {
        let owned = ep_enabled_mask(0x00) | ep_enabled_mask(0x80);
        let u = Usb {
            usb: UsbShared {
                rt,
                address: 0,
                enabled: false,
                attached: false,
                ep0_stalled: false,
                ep_owned: owned,
                ep_active: 0,
                in_flight: 0,
                sent: Vec::new(),
                host_out: Vec::new(),
            },
        };
        proof {
            assert(u.usb@.sent =~= Seq::<(u8, Seq<u8>)>::empty());
            assert(u.usb@.host_out =~= Seq::<(u8, Seq<u8>)>::empty());
        }
        u
    }

    /// Borrow the shared device state.
    pub fn shared(&self) -> (r: &UsbShared)
        ensures
            r@ == self.usb@,
    {
        &self.usb
    }

    /// The task-context token the device was initialized under.
    pub fn rt(&self) -> Runtime {
        self.usb.rt()
    }

    /// Bring the peripheral up: reset it, program the descriptor base, and
    /// enable the controller.
    pub fn enable(&mut self)
        ensures
            final(self).usb@ == (UsbModel { enabled: true, ..old(self).usb@ }),
    {
        self.usb.enabled = true;
    }

    /// Attach to the bus: present the pull-up and unmask the bus-event
    /// interrupts, so the host starts enumeration.
    pub fn attach(&mut self)
        ensures
            final(self).usb@ == (UsbModel { attached: true, ..old(self).usb@ }),
    {
        self.usb.attached = true;
    }

    /// Detach from the bus: release the pull-up and mask the bus-event
    /// interrupts.
    pub fn detach(&mut self)
        ensures
            final(self).usb@ == (UsbModel { attached: false, ..old(self).usb@ }),
    {
        self.usb.attached = false;
    }
}

/// The control endpoint: transfers on endpoint 0 in both directions, backed
/// by the shared control buffer.
pub struct Endpoint0 {}

impl Endpoint0 {
    /// Send a control IN response: the data as packets of at most 64 bytes,
    /// copied a packet at a time through the control buffer.  A response
    /// that is shorter than the host asked for (`is_full` false) and ends on
    /// a packet boundary is terminated with a zero-length packet.
    pub fn ep0_transfer_in(&mut self, usb: &mut UsbShared, data: &[u8], is_full: bool)
        requires
            old(usb)@.in_flight & spec_ep_mask(0x80) == 0,
        ensures
            final(usb)@ == (UsbModel {
                sent: old(usb)@.sent + tag_packets(0x80, send_packets(data@, !is_full)),
                ..old(usb)@
            }),
    {
        proof {
            assert(0x80u8 & 0x80 == 0x80) by (bit_vector);
        }
        usb.transfer_in(0x80, data, !is_full);
    }

    /// Receive one control OUT packet through the control buffer.
    pub fn ep0_transfer_out(&mut self, usb: &mut UsbShared) -> (r: Vec<u8>)
        requires
            old(usb)@.in_flight & spec_ep_mask(0x00) == 0,
            old(usb)@.host_out.len() > 0,
            old(usb)@.host_out[0].0 == 0,
            old(usb)@.host_out[0].1.len() <= 64,
        ensures
            r@ == old(usb)@.host_out[0].1,
            r@.len() <= 64,
            final(usb)@ == (UsbModel { host_out: old(usb)@.host_out.drop_first(), ..old(usb)@ }),
    {
        usb.out_packet(0)
    }

    /// Stall endpoint 0.
    pub fn stall_ep0(&mut self, usb: &mut UsbShared)
        ensures
            final(usb)@ == (UsbModel { ep0_stalled: true, ..old(usb)@ }),
    {
        usb.stall_ep0();
    }
}


impl UsbShared {
    /// Register an endpoint address in the process-wide ownership bitmap.
    /// Claiming an address some endpoint object already owns is a
    /// programming error, excluded here by precondition.
    pub fn mark_enabled(&mut self, ep: u8)
        requires
            old(self)@.ep_owned & spec_ep_mask(ep) == 0,
        ensures
            final(self)@ == (UsbModel {
                ep_owned: old(self)@.ep_owned | spec_ep_mask(ep),
                ..old(self)@
            }),
    {
        let m = ep_enabled_mask(ep);
        self.ep_owned = self.ep_owned | m;
    }

    /// Register an endpoint address, reporting the double-use programming
    /// error instead of requiring its absence: an address already owned is
    /// refused and nothing changes.
    pub fn try_mark_enabled(&mut self, ep: u8) -> (r: Result<(), crate::Fault>)
        ensures
            r is Err <==> old(self)@.ep_owned & spec_ep_mask(ep) != 0,
            r is Err ==> r == Err::<(), crate::Fault>(crate::Fault::EndpointInUse)
                && final(self)@ == old(self)@,
            r is Ok ==> final(self)@ == (UsbModel {
                ep_owned: old(self)@.ep_owned | spec_ep_mask(ep),
                ..old(self)@
            }),
    {
        let m = ep_enabled_mask(ep);
        if self.ep_owned & m != 0 {
            Err(crate::Fault::EndpointInUse)
        } else {
            self.ep_owned = self.ep_owned | m;
            Ok(())
        }
    }

    /// Release an endpoint address from the ownership bitmap, as the drop
    /// path of an endpoint object does.
    pub fn mark_disabled(&mut self, ep: u8)
        ensures
            final(self)@ == (UsbModel {
                ep_owned: old(self)@.ep_owned & !spec_ep_mask(ep),
                ..old(self)@
            }),
    {
        let m = ep_enabled_mask(ep);
        self.ep_owned = self.ep_owned & !m;
    }
}


impl UsbShared {
    /// The device address currently programmed.
    pub fn address(&self) -> (r: u8)
        ensures
            r == self@.address,
    {
        self.address
    }

    /// Whether the peripheral is enabled.
    pub fn is_enabled(&self) -> (r: bool)
        ensures
            r == self@.enabled,
    {
        self.enabled
    }

    /// Whether the pull-up is presented to the host.
    pub fn is_attached(&self) -> (r: bool)
        ensures
            r == self@.attached,
    {
        self.attached
    }

    /// Whether endpoint 0 is stalled.
    pub fn ep0_is_stalled(&self) -> (r: bool)
        ensures
            r == self@.ep0_stalled,
    {
        self.ep0_stalled
    }

    /// The endpoint ownership bitmap.
    pub fn owned_mask(&self) -> (r: u32)
        ensures
            r == self@.ep_owned,
    {
        self.ep_owned
    }

    /// The hardware endpoint enable bitmap.
    pub fn active_mask(&self) -> (r: u32)
        ensures
            r == self@.ep_active,
    {
        self.ep_active
    }

    /// The in-flight transfer bitmap.
    pub fn in_flight_mask(&self) -> (r: u32)
        ensures
            r == self@.in_flight,
    {
        self.in_flight
    }

    /// How many IN packets have been handed to the host.
    pub fn sent_count(&self) -> (r: usize)
        ensures
            r == self@.sent.len(),
    {
        self.sent.len()
    }

    /// The `i`th IN packet handed to the host: its endpoint address and a
    /// copy of its bytes.
    pub fn sent_packet(&self, i: usize) -> (r: (u8, Vec<u8>))
        requires
            i < self@.sent.len(),
        ensures
            r.0 == self@.sent[i as int].0,
            r.1@ == self@.sent[i as int].1,
    {
        let entry = &self.sent[i];
        let mut bytes: Vec<u8> = Vec::new();
        let n = entry.1.len();
        let mut j: usize = 0;
        while j < n
            invariant
                j <= n,
                n == entry.1@.len(),
                bytes@ == entry.1@.take(j as int),
            decreases n - j,
        {
            bytes.push(entry.1[j]);
            proof {
                assert(entry.1@.take(j + 1) =~= entry.1@.take(j as int).push(entry.1@[j as int]));
            }
            j = j + 1;
        }
        proof {
            assert(entry.1@.take(n as int) =~= entry.1@);
        }
        (entry.0, bytes)
    }

    /// How many OUT packets the host has queued and the device has not yet
    /// consumed.
    pub fn host_out_count(&self) -> (r: usize)
        ensures
            r == self@.host_out.len(),
    {
        self.host_out.len()
    }
}

} // verus!
