//! The USB device engine.
//!
//! Submodules cover the compile-time descriptor builders and the runtime
//! device model; this module holds the control-transfer machinery: the
//! 8-byte setup packet parser, the classification of standard requests, the
//! control data handles whose conclusion every request must reach, endpoint
//! objects, and the bus-event dispatcher.

use vstd::prelude::*;

pub mod descriptors;
pub mod device;

use crate::usb::device::{send_packets, spec_ep_mask, tag_packets, UsbModel, UsbShared};
use crate::Fault;

verus! {

/// Standard request code: GET_STATUS.
pub const REQUEST_GET_STATUS: u8 = 0;

/// Standard request code: SET_ADDRESS.
pub const REQUEST_SET_ADDRESS: u8 = 5;

/// Standard request code: GET_DESCRIPTOR.
pub const REQUEST_GET_DESCRIPTOR: u8 = 6;

/// Standard request code: SET_CONFIGURATION.
pub const REQUEST_SET_CONFIGURATION: u8 = 9;

/// Standard request code: SET_INTERFACE.
pub const REQUEST_SET_INTERFACE: u8 = 11;

/// A bus event delivered by the hardware poll: a bus reset, or a setup
/// packet arriving on endpoint 0.
pub enum Event {
    /// The host reset the bus.
    Reset,
    /// The host sent the 8 bytes of a setup packet.
    Setup([u8; 8]),
}

/// Specification defining the request.
#[derive(Clone, Copy, PartialEq, Eq, Structural, Debug)]
pub enum ControlType {
    /// Request defined by the USB standard.
    Standard,
    /// Request defined by the standard USB class specification.
    Class,
    /// Non-standard request.
    Vendor,
}

/// Entity targeted by the request.
#[derive(Clone, Copy, PartialEq, Eq, Structural, Debug)]
pub enum Recipient {
    /// Request made to device as a whole.
    Device,
    /// Request made to specific interface.
    Interface,
    /// Request made to specific endpoint.
    Endpoint,
    /// Other request.
    Other,
}

/// The recipient encoded in the low five bits of the request-type byte, if
/// it is one the engine knows.
pub open spec fn spec_recipient(b: u8) -> Option<Recipient> {
    if b & 0x1f == 0 {
        Some(Recipient::Device)
    } else if b & 0x1f == 1 {
        Some(Recipient::Interface)
    } else if b & 0x1f == 2 {
        Some(Recipient::Endpoint)
    } else if b & 0x1f == 3 {
        Some(Recipient::Other)
    } else {
        None
    }
}

/// The control type encoded in bits five and six of the request-type byte;
/// the fourth code is reserved.
pub open spec fn spec_control_type(b: u8) -> Option<ControlType> {
    if b & 0x60 == 0 {
        Some(ControlType::Standard)
    } else if b & 0x60 == 0x20 {
        Some(ControlType::Class)
    } else if b & 0x60 == 0x40 {
        Some(ControlType::Vendor)
    } else {
        None
    }
}

/// A 16-bit field read little-endian from two packet bytes.
pub open spec fn le16_of(lo: u8, hi: u8) -> u16 {
    (lo + hi * 0x100) as u16
}

/// Token used to ensure that every control request is either answered or
/// stalled.  Only concluding a request — `respond`, `accept`, or `reject` on
/// its control data handle — produces one.
pub struct Responded {
    sealed: (),
}

/// The IN data phase of a control request: the host asked for up to
/// `length` bytes.  The handle is unforgeable: only the parser builds one,
/// so concluding through it concludes the parsed request.  Its view is the
/// requested length.
pub struct ControlIn {
    length: u16,
}

impl View for ControlIn {
    type V = u16;

    closed spec fn view(&self) -> u16 {
        self.length
    }
}

impl ControlIn {
    /// `wLength`: how many bytes the host is willing to accept.
    pub fn length(&self) -> (r: u16)
        ensures
            r == self@,
    {
        self.length
    }
}

/// Abstract state of an OUT data phase.
pub struct ControlOutModel {
    /// `wLength`: how many bytes the host announced.
    pub length: u16,
    /// How many announced bytes have not been received yet.
    pub remaining: u16,
}

/// The OUT data phase of a control request: the host announced `length`
/// bytes, of which `remaining` are still to be received.  The handle is
/// unforgeable: only the parser builds one.
pub struct ControlOut {
    length: u16,
    remaining: u16,
}

impl View for ControlOut {
    type V = ControlOutModel;

    closed spec fn view(&self) -> ControlOutModel {
        ControlOutModel { length: self.length, remaining: self.remaining }
    }
}

/// The data phase of a control request, by direction.
pub enum ControlData {
    /// Device-to-host data phase.
    In(ControlIn),
    /// Host-to-device data phase.
    Out(ControlOut),
}

/// A parsed setup packet.
pub struct Setup {
    /// The data phase handle.
    pub data: ControlData,
    /// Request type from the `bmRequestType` field.
    pub ty: ControlType,
    /// Recipient from the `bmRequestType` field.
    pub recipient: Recipient,
    /// The `bRequest` field.
    pub request: u8,
    /// The `wValue` field.
    pub value: u16,
    /// The `wIndex` field: the interface number for interface recipients,
    /// the endpoint number for endpoint recipients.
    pub index: u16,
}

impl Setup {
    /// Parse the 8 bytes of a setup packet.  A packet whose request-type
    /// byte carries an unknown recipient code or the reserved control type
    /// is malformed and rejected.
    pub fn parse(packet: [u8; 8]) -> (r: Result<Setup, ()>)
        ensures
            r is Ok <==> (spec_recipient(packet@[0]) is Some && spec_control_type(
                packet@[0],
            ) is Some),
            r is Ok <==> spec_parse(packet@) is Some,
            r matches Ok(s) ==> Some(s) == spec_parse(packet@),
            r matches Ok(s) ==> {
                &&& Some(s.recipient) == spec_recipient(packet@[0])
                &&& Some(s.ty) == spec_control_type(packet@[0])
                &&& s.request == packet@[1]
                &&& s.value == le16_of(packet@[2], packet@[3])
                &&& s.index == le16_of(packet@[4], packet@[5])
                &&& (packet@[0] & 0x80 == 0 ==> (s.data matches ControlData::Out(o) && o@.length
                    == le16_of(packet@[6], packet@[7]) && o@.remaining == le16_of(
                    packet@[6],
                    packet@[7],
                )))
                &&& (packet@[0] & 0x80 != 0 ==> (s.data matches ControlData::In(i) && i@
                    == le16_of(packet@[6], packet@[7])))
            },
    {
        let recipient = match packet[0] & 0x1f {
            0 => Recipient::Device,
            1 => Recipient::Interface,
            2 => Recipient::Endpoint,
            3 => Recipient::Other,
            _ => {
                return Err(());
            },
        };
        let ty = match packet[0] & 0x60 {
            0 => ControlType::Standard,
            0x20 => ControlType::Class,
            0x40 => ControlType::Vendor,
            _ => {
                return Err(());
            },
        };
        let value = packet[2] as u16 + 0x100 * (packet[3] as u16);
        let index = packet[4] as u16 + 0x100 * (packet[5] as u16);
        let length = packet[6] as u16 + 0x100 * (packet[7] as u16);
        let data = if packet[0] & 0x80 == 0 {
            ControlData::Out(ControlOut { length, remaining: length })
        } else {
            ControlData::In(ControlIn { length })
        };
        Ok(Setup { data, ty, recipient, request: packet[1], value, index })
    }
}

/// The standard requests the dispatcher answers itself; anything else goes
/// to the handler.
#[derive(Clone, Copy, PartialEq, Eq, Structural, Debug)]
pub enum StandardRequest {
    /// GET_STATUS with an IN data phase: answered with two zero bytes.
    GetStatus,
    /// GET_DESCRIPTOR to the device: the handler looks the descriptor up.
    GetDescriptor { kind: u8, index: u8, lang: u16 },
    /// SET_ADDRESS to the device: status phase first, then the address.
    SetAddress { addr: u8 },
    /// SET_CONFIGURATION to the device: the handler configures endpoints.
    SetConfiguration { value: u8 },
    /// SET_INTERFACE to an interface: the handler selects the alternate.
    SetInterface { intf: u8, alt: u8 },
    /// Everything else: handed to the handler's control callback.
    Other,
}

/// Which of the dispatcher's arms a parsed setup packet selects.
pub open spec fn spec_classify(s: Setup) -> StandardRequest {
    if s.ty == ControlType::Standard && s.request == REQUEST_GET_STATUS && s.data is In {
        StandardRequest::GetStatus
    } else if s.ty == ControlType::Standard && s.recipient == Recipient::Device && s.request
        == REQUEST_GET_DESCRIPTOR && s.data is In {
        StandardRequest::GetDescriptor {
            kind: (s.value / 0x100) as u8,
            index: (s.value % 0x100) as u8,
            lang: s.index,
        }
    } else if s.ty == ControlType::Standard && s.recipient == Recipient::Device && s.request
        == REQUEST_SET_ADDRESS && s.data is Out {
        StandardRequest::SetAddress { addr: (s.value % 0x100) as u8 }
    } else if s.ty == ControlType::Standard && s.recipient == Recipient::Device && s.request
        == REQUEST_SET_CONFIGURATION && s.data is Out {
        StandardRequest::SetConfiguration { value: (s.value % 0x100) as u8 }
    } else if s.ty == ControlType::Standard && s.recipient == Recipient::Interface && s.request
        == REQUEST_SET_INTERFACE && s.data is Out {
        StandardRequest::SetInterface {
            intf: (s.index % 0x100) as u8,
            alt: (s.value % 0x100) as u8,
        }
    } else {
        StandardRequest::Other
    }
}

/// Classify a parsed setup packet into the dispatcher arm that will answer
/// it.
pub fn classify(s: &Setup) -> (r: StandardRequest)
    ensures
        r == spec_classify(*s),
{
    let is_in = match &s.data {
        ControlData::In(_) => true,
        ControlData::Out(_) => false,
    };
    if s.ty == ControlType::Standard && s.request == REQUEST_GET_STATUS && is_in {
        StandardRequest::GetStatus
    } else if s.ty == ControlType::Standard && s.recipient == Recipient::Device && s.request
        == REQUEST_GET_DESCRIPTOR && is_in {
        StandardRequest::GetDescriptor {
            kind: (s.value / 0x100) as u8,
            index: (s.value % 0x100) as u8,
            lang: s.index,
        }
    } else if s.ty == ControlType::Standard && s.recipient == Recipient::Device && s.request
        == REQUEST_SET_ADDRESS && !is_in {
        StandardRequest::SetAddress { addr: (s.value % 0x100) as u8 }
    } else if s.ty == ControlType::Standard && s.recipient == Recipient::Device && s.request
        == REQUEST_SET_CONFIGURATION && !is_in {
        StandardRequest::SetConfiguration { value: (s.value % 0x100) as u8 }
    } else if s.ty == ControlType::Standard && s.recipient == Recipient::Interface && s.request
        == REQUEST_SET_INTERFACE && !is_in {
        StandardRequest::SetInterface {
            intf: (s.index % 0x100) as u8,
            alt: (s.value % 0x100) as u8,
        }
    } else {
        StandardRequest::Other
    }
}

/// A word-aligned buffer the hardware may DMA packets into or out of.
pub struct UsbBuffer<const SIZE: usize> {
    /// The buffer contents; always exactly `SIZE` bytes.
    pub data: Vec<u8>,
}

impl<const SIZE: usize> UsbBuffer<SIZE> {
    /// A zeroed buffer of `SIZE` bytes.
    pub fn new() -> (b: UsbBuffer<SIZE>)
        ensures
            b.data@.len() == SIZE,
            forall|i: int| 0 <= i < SIZE ==> b.data@[i] == 0u8,
    {
        let mut data: Vec<u8> = Vec::new();
        let mut i: usize = 0;
        while i < SIZE
            invariant
                i <= SIZE,
                data@.len() == i,
                forall|k: int| 0 <= k < i ==> data@[k] == 0u8,
            decreases SIZE - i,
        {
            data.push(0u8);
            i = i + 1;
        }
        UsbBuffer { data }
    }

    /// The buffer's capacity in bytes.
    pub fn len(&self) -> (r: usize)
        ensures
            r == self.data@.len(),
    {
        self.data.len()
    }

    /// The buffer contents as a byte slice.
    pub fn bytes(&self) -> (r: &[u8])
        ensures
            r@ == self.data@,
    {
        self.data.as_slice()
    }
}


/// The packets a control IN response of `data` puts on endpoint 0 when the
/// host asked for `req_len` bytes: the response is truncated to the
/// request, and a response shorter than the request that ends on a packet
/// boundary gets a terminating zero-length packet.
pub open spec fn respond_packets(data: Seq<u8>, req_len: u16) -> Seq<Seq<u8>> {
    if data.len() >= req_len {
        send_packets(data.take(req_len as int), false)
    } else {
        send_packets(data, true)
    }
}

/// A control IN response never exceeds what the host asked for: the bytes
/// on the wire are the response truncated to the requested length, intact
/// when it already fits.
pub proof fn lemma_respond_truncates(data: Seq<u8>, req_len: u16)
    ensures
        crate::usb::descriptors::concat_all(respond_packets(data, req_len)).len() <= req_len,
        data.len() >= req_len ==> crate::usb::descriptors::concat_all(
            respond_packets(data, req_len),
        ) == data.take(req_len as int),
        data.len() < req_len ==> crate::usb::descriptors::concat_all(
            respond_packets(data, req_len),
        ) == data,
{
    if data.len() >= req_len {
        crate::usb::device::lemma_send_packets_flatten(data.take(req_len as int), false);
    } else {
        crate::usb::device::lemma_send_packets_flatten(data, true);
    }
}

impl ControlIn {
    /// Reject the request: stall endpoint 0.
    pub fn reject(self, usb: &mut UsbShared) -> (r: Responded)
        ensures
            final(usb)@ == (UsbModel { ep0_stalled: true, ..old(usb)@ }),
    {
        usb.stall_ep0();
        Responded { sealed: () }
    }

    /// Answer the request with `data`, truncated to the host's requested
    /// length and sent as packets of at most 64 bytes.  The zero-length OUT
    /// status phase that concludes the transfer is an acknowledgment the
    /// hardware exchanges; it carries no data, so it is deliberately not
    /// modelled as a consumed host packet (`accept`'s status IN packet, by
    /// contrast, is emitted by the device and appears in the sent stream).
    pub fn respond(self, usb: &mut UsbShared, data: &[u8]) -> (r: Responded)
        requires
            old(usb)@.in_flight & spec_ep_mask(0x80) == 0,
        ensures
            final(usb)@ == (UsbModel {
                sent: old(usb)@.sent + tag_packets(0x80, respond_packets(data@, self@)),
                ..old(usb)@
            }),
    {
        proof {
            assert(data.len() == data@.len());
        }
        let is_full = data.len() >= self.length as usize;
        let cut = if data.len() < self.length as usize {
            data.len()
        } else {
            self.length as usize
        };
        let mut copy: Vec<u8> = Vec::new();
        let mut i: usize = 0;
        while i < cut
            invariant
                i <= cut,
                cut <= data@.len(),
                copy@ == data@.take(i as int),
            decreases cut - i,
        {
            copy.push(data[i]);
            proof {
                assert(data@.take(i + 1) =~= data@.take(i as int).push(data@[i as int]));
            }
            i = i + 1;
        }
        let mut ep0 = crate::usb::device::Endpoint0 {  };
        ep0.ep0_transfer_in(usb, copy.as_slice(), is_full);
        proof {
            if data@.len() >= self@ {
                assert(copy@ =~= data@.take(self.length as int));
            } else {
                assert(copy@ =~= data@);
            }
        }
        Responded { sealed: () }
    }
}

impl ControlOut {
    /// Reject the request: stall endpoint 0.
    pub fn reject(self, usb: &mut UsbShared) -> (r: Responded)
        ensures
            final(usb)@ == (UsbModel { ep0_stalled: true, ..old(usb)@ }),
    {
        usb.stall_ep0();
        Responded { sealed: () }
    }

    /// How many bytes the host announced for the data phase.
    pub fn len(&self) -> (r: usize)
        ensures
            r == self@.length,
    {
        self.length as usize
    }

    /// How many announced bytes have not been received yet.
    pub fn remaining(&self) -> (r: usize)
        ensures
            r == self@.remaining,
    {
        self.remaining as usize
    }

    /// Receive one OUT packet of the data phase, decrementing `remaining`
    /// by its size (never below zero).  With nothing left to receive,
    /// returns no bytes and touches nothing.
    pub fn receive(&mut self, usb: &mut UsbShared) -> (r: Vec<u8>)
        requires
            old(self)@.remaining > 0 ==> {
                &&& old(usb)@.in_flight & spec_ep_mask(0x00) == 0
                &&& old(usb)@.host_out.len() > 0
                &&& old(usb)@.host_out[0].0 == 0
                &&& old(usb)@.host_out[0].1.len() <= 64
            },
        ensures
            final(self)@.length == old(self)@.length,
            old(self)@.remaining == 0 ==> r@ == Seq::<u8>::empty() && final(self)@ == old(self)@
                && final(usb)@ == old(usb)@,
            old(self)@.remaining > 0 ==> {
                &&& r@ == old(usb)@.host_out[0].1
                &&& final(usb)@ == (UsbModel {
                    host_out: old(usb)@.host_out.drop_first(),
                    ..old(usb)@
                })
                &&& final(self)@.remaining == if r@.len() >= old(self)@.remaining {
                    0u16
                } else {
                    (old(self)@.remaining - r@.len()) as u16
                }
            },
    {
        if self.remaining > 0 {
            let mut ep0 = crate::usb::device::Endpoint0 {  };
            let data = ep0.ep0_transfer_out(usb);
            let got = data.len() as u16;
            self.remaining = if got >= self.remaining {
                0
            } else {
                self.remaining - got
            };
            data
        } else {
            Vec::new()
        }
    }
}

/// The single zero-length packet of a status IN phase.
pub open spec fn status_in_packet() -> Seq<(u8, Seq<u8>)> {
    seq![(0x80u8, Seq::<u8>::empty())]
}

impl ControlOut {
    /// Accept the request after its whole data phase was received: send the
    /// zero-length IN status phase.
    pub fn accept(self, usb: &mut UsbShared) -> (r: Responded)
        requires
            self@.remaining == 0,
            old(usb)@.in_flight & spec_ep_mask(0x80) == 0,
        ensures
            final(usb)@ == (UsbModel {
                sent: old(usb)@.sent + status_in_packet(),
                ..old(usb)@
            }),
    {
        let mut ep0 = crate::usb::device::Endpoint0 {  };
        let empty: Vec<u8> = Vec::new();
        ep0.ep0_transfer_in(usb, empty.as_slice(), true);
        proof {
            assert(send_packets(Seq::<u8>::empty(), false) =~= seq![Seq::<u8>::empty()]);
            assert(tag_packets(0x80, seq![Seq::<u8>::empty()]) =~= status_in_packet());
        }
        Responded { sealed: () }
    }
}

impl Setup {
    /// Reject the request, whichever direction its data phase has.
    pub fn reject(self, usb: &mut UsbShared) -> (r: Responded)
        ensures
            final(usb)@ == (UsbModel { ep0_stalled: true, ..old(usb)@ }),
    {
        match self.data {
            ControlData::In(d) => d.reject(usb),
            ControlData::Out(d) => d.reject(usb),
        }
    }
}


/// The endpoints configurator handed to `set_configuration` and
/// `set_interface`: it vends endpoint objects, registering each address in
/// the process-wide ownership bitmap.
pub struct Endpoints {}

impl Endpoints {
    /// Claim an endpoint address and enable the hardware endpoint for bulk
    /// or interrupt transfers.  Claiming an address already owned is a
    /// programming error, excluded here by precondition.
    pub fn bulk_interrupt(&self, usb: &mut UsbShared, ep: u8) -> (e: Endpoint)
        requires
            old(usb)@.ep_owned & spec_ep_mask(ep) == 0,
        ensures
            e.ep == ep,
            final(usb)@ == (UsbModel {
                ep_owned: old(usb)@.ep_owned | spec_ep_mask(ep),
                ep_active: old(usb)@.ep_active | spec_ep_mask(ep),
                ..old(usb)@
            }),
    {
        usb.mark_enabled(ep);
        usb.enable_ep(ep);
        Endpoint { ep }
    }

    /// Claim an endpoint address, reporting the double-use programming
    /// error instead of requiring its absence.
    pub fn try_claim(&self, usb: &mut UsbShared, ep: u8) -> (r: Result<Endpoint, Fault>)
        ensures
            r is Err <==> old(usb)@.ep_owned & spec_ep_mask(ep) != 0,
            r is Err ==> r == Err::<Endpoint, Fault>(Fault::EndpointInUse) && final(usb)@ == old(
                usb,
            )@,
            r matches Ok(e) ==> e.ep == ep && final(usb)@ == (UsbModel {
                ep_owned: old(usb)@.ep_owned | spec_ep_mask(ep),
                ep_active: old(usb)@.ep_active | spec_ep_mask(ep),
                ..old(usb)@
            }),
    {
        match usb.try_mark_enabled(ep) {
            Ok(()) => {
                usb.enable_ep(ep);
                Ok(Endpoint { ep })
            },
            Err(f) => Err(f),
        }
    }

    /// A bulk IN endpoint object for the address.
    pub fn bulk_in(&self, usb: &mut UsbShared, ep: u8) -> (e: Endpoint)
        requires
            ep & 0x80 == 0x80,
            old(usb)@.ep_owned & spec_ep_mask(ep) == 0,
        ensures
            e.ep == ep,
            final(usb)@ == (UsbModel {
                ep_owned: old(usb)@.ep_owned | spec_ep_mask(ep),
                ep_active: old(usb)@.ep_active | spec_ep_mask(ep),
                ..old(usb)@
            }),
    {
        self.bulk_interrupt(usb, ep)
    }

    /// A bulk OUT endpoint object for the address.
    pub fn bulk_out(&self, usb: &mut UsbShared, ep: u8) -> (e: Endpoint)
        requires
            ep & 0x80 == 0,
            old(usb)@.ep_owned & spec_ep_mask(ep) == 0,
        ensures
            e.ep == ep,
            final(usb)@ == (UsbModel {
                ep_owned: old(usb)@.ep_owned | spec_ep_mask(ep),
                ep_active: old(usb)@.ep_active | spec_ep_mask(ep),
                ..old(usb)@
            }),
    {
        self.bulk_interrupt(usb, ep)
    }

    /// An interrupt IN endpoint object for the address.
    pub fn interrupt_in(&self, usb: &mut UsbShared, ep: u8) -> (e: Endpoint)
        requires
            ep & 0x80 == 0x80,
            old(usb)@.ep_owned & spec_ep_mask(ep) == 0,
        ensures
            e.ep == ep,
            final(usb)@ == (UsbModel {
                ep_owned: old(usb)@.ep_owned | spec_ep_mask(ep),
                ep_active: old(usb)@.ep_active | spec_ep_mask(ep),
                ..old(usb)@
            }),
    {
        self.bulk_interrupt(usb, ep)
    }

    /// An interrupt OUT endpoint object for the address.
    pub fn interrupt_out(&self, usb: &mut UsbShared, ep: u8) -> (e: Endpoint)
        requires
            ep & 0x80 == 0,
            old(usb)@.ep_owned & spec_ep_mask(ep) == 0,
        ensures
            e.ep == ep,
            final(usb)@ == (UsbModel {
                ep_owned: old(usb)@.ep_owned | spec_ep_mask(ep),
                ep_active: old(usb)@.ep_active | spec_ep_mask(ep),
                ..old(usb)@
            }),
    {
        self.bulk_interrupt(usb, ep)
    }
}

/// A non-control endpoint object: exclusive owner of its endpoint address
/// until released.  The direction is the high bit of the address (set for
/// IN).
pub struct Endpoint {
    /// The endpoint address this object owns.
    pub ep: u8,
}

impl Endpoint {
    /// Suspend until one packet arrives on this OUT endpoint and copy it to
    /// the front of `buf`; returns its length, at most 64.  The buffer must
    /// hold at least one full packet.
    pub fn receive<const SIZE: usize>(
        &mut self,
        usb: &mut UsbShared,
        buf: &mut UsbBuffer<SIZE>,
    ) -> (len: usize)
        requires
            SIZE >= 64,
            old(buf).data@.len() == SIZE,
            old(self).ep & 0x80 == 0,
            old(usb)@.in_flight & spec_ep_mask(old(self).ep) == 0,
            old(usb)@.host_out.len() > 0,
            old(usb)@.host_out[0].0 == old(self).ep,
            old(usb)@.host_out[0].1.len() <= 64,
        ensures
            *final(self) == *old(self),
            len == old(usb)@.host_out[0].1.len(),
            len <= 64,
            final(buf).data@ == old(usb)@.host_out[0].1 + old(buf).data@.skip(len as int),
            final(usb)@ == (UsbModel { host_out: old(usb)@.host_out.drop_first(), ..old(usb)@ }),
    {
        let pkt = usb.transfer_out(self.ep, buf.data.len());
        let n = pkt.len();
        let mut i: usize = 0;
        while i < n
            invariant
                i <= n,
                n == pkt@.len(),
                n <= buf.data@.len(),
                buf.data@.len() == old(buf).data@.len(),
                forall|k: int| 0 <= k < i ==> buf.data@[k] == pkt@[k],
                forall|k: int| i <= k < buf.data@.len() ==> buf.data@[k] == old(buf).data@[k],
            decreases n - i,
        {
            buf.data[i] = pkt[i];
            i = i + 1;
        }
        proof {
            assert(buf.data@ =~= pkt@ + old(buf).data@.skip(n as int));
        }
        n
    }

    /// Transmit the first `len` bytes of `buf` on this IN endpoint as a
    /// sequence of packets of at most 64 bytes; with `zlp`, a transfer that
    /// is a positive multiple of 64 bytes is terminated by a zero-length
    /// packet.
    pub fn send<const SIZE: usize>(
        &mut self,
        usb: &mut UsbShared,
        buf: &UsbBuffer<SIZE>,
        len: usize,
        zlp: bool,
    )
        requires
            len <= buf.data@.len(),
            old(self).ep & 0x80 == 0x80,
            old(usb)@.in_flight & spec_ep_mask(old(self).ep) == 0,
        ensures
            *final(self) == *old(self),
            final(usb)@ == (UsbModel {
                sent: old(usb)@.sent + tag_packets(
                    old(self).ep,
                    send_packets(buf.data@.take(len as int), zlp),
                ),
                ..old(usb)@
            }),
    {
        let mut prefix: Vec<u8> = Vec::new();
        let mut i: usize = 0;
        while i < len
            invariant
                i <= len,
                len <= buf.data@.len(),
                prefix@ == buf.data@.take(i as int),
            decreases len - i,
        {
            prefix.push(buf.data[i]);
            proof {
                assert(buf.data@.take(i + 1) =~= buf.data@.take(i as int).push(
                    buf.data@[i as int],
                ));
            }
            i = i + 1;
        }
        usb.transfer_in(self.ep, prefix.as_slice(), zlp);
    }

    /// The drop path of the endpoint object: disable the hardware endpoint
    /// and release its address for reuse.
    pub fn release(self, usb: &mut UsbShared)
        ensures
            final(usb)@ == (UsbModel {
                ep_owned: old(usb)@.ep_owned & !spec_ep_mask(self.ep),
                ep_active: old(usb)@.ep_active & !spec_ep_mask(self.ep),
                ..old(usb)@
            }),
    {
        usb.disable_ep(self.ep);
        usb.mark_disabled(self.ep);
    }
}


/// The parse of an 8-byte setup packet, at the specification level.
pub closed spec fn spec_parse(p: Seq<u8>) -> Option<Setup> {
    if spec_recipient(p[0]) is Some && spec_control_type(p[0]) is Some {
        Some(
            Setup {
                data: if p[0] & 0x80 == 0 {
                    ControlData::Out(
                        ControlOut { length: le16_of(p[6], p[7]), remaining: le16_of(p[6], p[7]) },
                    )
                } else {
                    ControlData::In(ControlIn { length: le16_of(p[6], p[7]) })
                },
                ty: spec_control_type(p[0]).unwrap(),
                recipient: spec_recipient(p[0]).unwrap(),
                request: p[1],
                value: le16_of(p[2], p[3]),
                index: le16_of(p[4], p[5]),
            },
        )
    } else {
        None
    }
}

/// What a successful parse yields, stated over the packet bytes and the
/// handles' views: the bridge for reasoning about contracts that name
/// [`spec_parse`] from outside this module, where its body is not visible.
pub proof fn lemma_spec_parse_fields(p: Seq<u8>)
    ensures
        spec_parse(p) is Some <==> (spec_recipient(p[0]) is Some && spec_control_type(
            p[0],
        ) is Some),
        spec_parse(p) matches Some(s) ==> {
            &&& Some(s.recipient) == spec_recipient(p[0])
            &&& Some(s.ty) == spec_control_type(p[0])
            &&& s.request == p[1]
            &&& s.value == le16_of(p[2], p[3])
            &&& s.index == le16_of(p[4], p[5])
            &&& (p[0] & 0x80 == 0 ==> (s.data matches ControlData::Out(o) && o@.length == le16_of(
                p[6],
                p[7],
            ) && o@.remaining == le16_of(p[6], p[7])))
            &&& (p[0] & 0x80 != 0 ==> (s.data matches ControlData::In(i) && i@ == le16_of(
                p[6],
                p[7],
            )))
        },
{
}

/// The device-side half of the USB contract: the callbacks the application
/// implements.  The dispatcher answers the standard requests itself and
/// hands everything else here; each callback concludes through the control
/// data handle it is given, or reports its verdict for the dispatcher to
/// conclude with.
pub trait Handler {
    /// The host reset the bus: endpoint state was discarded, re-arm the
    /// application.
    fn handle_reset(&mut self);

    /// Look up the descriptor of the given kind and index (and language for
    /// string descriptors).  Returning nothing rejects the request.
    fn get_descriptor(
        &mut self,
        kind: u8,
        index: u8,
        lang: u16,
        builder: &mut crate::usb::descriptors::DescriptorBuilder,
    ) -> Option<Vec<u8>>;

    /// Select the configuration, claiming endpoints through the
    /// configurator; an error rejects the request.  Any transfer the
    /// callback starts must have completed or been cancelled when it
    /// returns.
    fn set_configuration(
        &mut self,
        cfg: u8,
        usb: &mut UsbShared,
        endpoints: &mut Endpoints,
    ) -> (r: Result<(), ()>)
        ensures
            final(usb)@.in_flight == old(usb)@.in_flight,
    ;

    /// Select an interface's alternate setting; an error rejects the
    /// request.  Any transfer the callback starts must have completed or
    /// been cancelled when it returns.
    fn set_interface(
        &mut self,
        intf: u8,
        alt: u8,
        usb: &mut UsbShared,
        endpoints: &mut Endpoints,
    ) -> (r: Result<(), ()>)
        ensures
            final(usb)@.in_flight == old(usb)@.in_flight,
    ;

    /// Handle a non-standard request.  The returned token proves the
    /// request was concluded: responded, accepted or rejected.  Any
    /// transfer the callback starts must have completed or been cancelled
    /// when it returns.
    fn handle_control(&mut self, usb: &mut UsbShared, req: Setup) -> (r: Responded)
        ensures
            final(usb)@.in_flight == old(usb)@.in_flight,
    ;
}

/// The handler behaviors a minimal device starts from: no descriptors of
/// its own, configuration one accepted, no alternate settings, and every
/// non-standard request rejected.
pub struct DefaultHandler {}

impl Handler for DefaultHandler {
    fn handle_reset(&mut self) {
    }

    fn get_descriptor(
        &mut self,
        kind: u8,
        index: u8,
        lang: u16,
        builder: &mut crate::usb::descriptors::DescriptorBuilder,
    ) -> Option<Vec<u8>> {
        let _ = (kind, index, lang, builder);
        None
    }

    fn set_configuration(
        &mut self,
        cfg: u8,
        usb: &mut UsbShared,
        endpoints: &mut Endpoints,
    ) -> (r: Result<(), ()>) {
        let _ = endpoints;
        let _ = &usb;
        if cfg == 1 {
            Ok(())
        } else {
            Err(())
        }
    }

    fn set_interface(
        &mut self,
        intf: u8,
        alt: u8,
        usb: &mut UsbShared,
        endpoints: &mut Endpoints,
    ) -> (r: Result<(), ()>) {
        let _ = (intf, alt);
        let _ = endpoints;
        let _ = &usb;
        Err(())
    }

    fn handle_control(&mut self, usb: &mut UsbShared, req: Setup) -> Responded {
        req.reject(usb)
    }
}

/// The device state after answering a control IN request with the
/// response bytes `d`, truncated to the host's requested length `req_len`
/// and packetized on endpoint 0 IN.
pub open spec fn respond_outcome(pre: UsbModel, post: UsbModel, d: Seq<u8>, req_len: u16) -> bool {
    post == (UsbModel { sent: pre.sent + tag_packets(0x80, respond_packets(d, req_len)), ..pre })
}

/// The device state after concluding an OUT request from the state `mid`
/// that the handler's callback left behind: accepted with the zero-length
/// status IN packet, or rejected with a stall.
pub open spec fn concluded_outcome(mid: UsbModel, post: UsbModel) -> bool {
    post == (UsbModel { sent: mid.sent + status_in_packet(), ..mid }) || post == (UsbModel {
        ep0_stalled: true,
        ..mid
    })
}

/// Dispatch one parsed control request: standard requests are answered
/// here — GET_STATUS with two zero bytes, GET_DESCRIPTOR from the handler's
/// lookup, SET_ADDRESS by accepting the status phase first and then setting
/// the address, SET_CONFIGURATION and SET_INTERFACE through the handler's
/// verdict — and anything else goes to the handler's control callback.
/// A request of the last three kinds that announces OUT data is malformed
/// and rejected with a stall before any callback runs.  Every branch
/// concludes the request: the returned token is produced only by `respond`,
/// `accept` or `reject`, and no transfer is left in flight.
pub fn handle_control_raw<H: Handler>(handler: &mut H, usb: &mut UsbShared, req: Setup) -> (r:
    Responded)
    requires
        old(usb)@.in_flight == 0,
    ensures
        final(usb)@.in_flight == old(usb)@.in_flight,
        spec_classify(req) == StandardRequest::GetStatus ==> (req.data matches ControlData::In(c)
            && final(usb)@ == (UsbModel {
            sent: old(usb)@.sent + tag_packets(0x80, respond_packets(seq![0u8, 0u8], c@)),
            ..old(usb)@
        })),
        spec_classify(req) is GetDescriptor ==> (req.data matches ControlData::In(c)
            && (final(usb)@ == (UsbModel { ep0_stalled: true, ..old(usb)@ }) || (exists|d: Seq<u8>|
            #[trigger] respond_outcome(old(usb)@, final(usb)@, d, c@)))),
        spec_classify(req) matches StandardRequest::SetAddress { addr } ==> (req.data
            matches ControlData::Out(o) && (if o@.remaining == 0 {
            final(usb)@ == (UsbModel {
                address: addr,
                sent: old(usb)@.sent + status_in_packet(),
                ..old(usb)@
            })
        } else {
            final(usb)@ == (UsbModel { ep0_stalled: true, ..old(usb)@ })
        })),
        spec_classify(req) is SetConfiguration ==> (req.data matches ControlData::Out(o) && (if o@.remaining == 0 {
            exists|mid: UsbModel|
                #[trigger] concluded_outcome(mid, final(usb)@) && mid.in_flight == old(usb)@.in_flight
        } else {
            final(usb)@ == (UsbModel { ep0_stalled: true, ..old(usb)@ })
        })),
        spec_classify(req) is SetInterface ==> (req.data matches ControlData::Out(o) && (if o@.remaining == 0 {
            exists|mid: UsbModel|
                #[trigger] concluded_outcome(mid, final(usb)@) && mid.in_flight == old(usb)@.in_flight
        } else {
            final(usb)@ == (UsbModel { ep0_stalled: true, ..old(usb)@ })
        })),
{
    let ghost greq = req;
    let ghost pre = usb@;
    let c = classify(&req);
    let Setup { data, ty, recipient, request, value, index } = req;
    proof {
        assert(0u32 & spec_ep_mask(0x80) == 0) by (bit_vector);
        assert(0u32 & spec_ep_mask(0x00) == 0) by (bit_vector);
    }
    match c {
        StandardRequest::GetStatus => match data {
            ControlData::In(d) => {
                let status: Vec<u8> = vec![0u8, 0u8];
                let r = d.respond(usb, status.as_slice());
                proof {
                    assert(status@ =~= seq![0u8, 0u8]);
                }
                r
            },
            ControlData::Out(_) => vstd::pervasive::unreached(),
        },
        StandardRequest::GetDescriptor { kind, index: desc_index, lang } => match data {
            ControlData::In(d) => {
                let ghost req_len = d@;
                let mut builder = crate::usb::descriptors::DescriptorBuilder::new();
                match handler.get_descriptor(kind, desc_index, lang, &mut builder) {
                    Some(descriptor) => {
                        let r = d.respond(usb, descriptor.as_slice());
                        proof {
                            assert(respond_outcome(pre, usb@, descriptor@, req_len));
                        }
                        r
                    },
                    None => d.reject(usb),
                }
            },
            ControlData::Out(_) => vstd::pervasive::unreached(),
        },
        StandardRequest::SetAddress { addr } => match data {
            ControlData::Out(d) => {
                if d.remaining() != 0 {
                    d.reject(usb)
                } else {
                    let r = d.accept(usb);
                    usb.set_address(addr);
                    r
                }
            },
            ControlData::In(_) => vstd::pervasive::unreached(),
        },
        StandardRequest::SetConfiguration { value: cfg } => match data {
            ControlData::Out(d) => {
                if d.remaining() != 0 {
                    d.reject(usb)
                } else {
                    let mut endpoints = Endpoints {  };
                    let verdict = handler.set_configuration(cfg, usb, &mut endpoints);
                    let ghost mid = usb@;
                    let r = match verdict {
                        Ok(()) => d.accept(usb),
                        Err(()) => d.reject(usb),
                    };
                    proof {
                        assert(concluded_outcome(mid, usb@) && mid.in_flight == pre.in_flight);
                    }
                    r
                }
            },
            ControlData::In(_) => vstd::pervasive::unreached(),
        },
        StandardRequest::SetInterface { intf, alt } => match data {
            ControlData::Out(d) => {
                if d.remaining() != 0 {
                    d.reject(usb)
                } else {
                    let mut endpoints = Endpoints {  };
                    let verdict = handler.set_interface(intf, alt, usb, &mut endpoints);
                    let ghost mid = usb@;
                    let r = match verdict {
                        Ok(()) => d.accept(usb),
                        Err(()) => d.reject(usb),
                    };
                    proof {
                        assert(concluded_outcome(mid, usb@) && mid.in_flight == pre.in_flight);
                    }
                    r
                }
            },
            ControlData::In(_) => vstd::pervasive::unreached(),
        },
        StandardRequest::Other => {
            handler.handle_control(usb, Setup { data, ty, recipient, request, value, index })
        },
    }
}

impl crate::usb::device::Usb {
    /// Attach as a USB device: bring the peripheral up and present the
    /// pull-up, so the host starts enumeration.  The bus events that follow
    /// are handled by [`Usb::run_device_step`], one per event, forever;
    /// dropping the loop detaches the device.
    pub fn run_device(&mut self)
        ensures
            final(self).usb@ == (UsbModel {
                enabled: true,
                attached: true,
                ..old(self).usb@
            }),
    {
        self.enable();
        self.attach();
    }

    /// Decide the next bus event from the hardware status flags: a bus
    /// reset outranks a pending setup packet, and with neither the poll
    /// reports nothing.  The flag reads and their acknowledgment writes
    /// happen at the register seam; this is the decision they feed.
    pub fn poll_event(&self, bus_reset: bool, setup: Option<[u8; 8]>) -> (r: Option<Event>)
        ensures
            bus_reset ==> (r matches Some(e) && e is Reset),
            !bus_reset ==> (setup matches Some(p) ==> (r matches Some(e) && e matches Event::Setup(
                q,
            ) && q == p)),
            !bus_reset && setup is None ==> r is None,
    {
        if bus_reset {
            Some(Event::Reset)
        } else {
            match setup {
                Some(packet) => Some(Event::Setup(packet)),
                None => None,
            }
        }
    }

    /// One turn of the device event loop.  A bus reset discards the control
    /// transfer in progress, reconfigures endpoint 0 and notifies the
    /// handler; a setup packet is parsed — a malformed one stalls endpoint
    /// 0 — and dispatched to the control machinery.
    pub fn run_device_step<H: Handler>(&mut self, handler: &mut H, event: Event)
        requires
            old(self).usb@.in_flight == 0,
        ensures
            final(self).usb@.in_flight == old(self).usb@.in_flight,
            event is Reset ==> final(self).usb@ == (UsbModel {
                ep0_stalled: false,
                ep_active: old(self).usb@.ep_active | spec_ep_mask(0x00) | spec_ep_mask(0x80),
                ..old(self).usb@
            }),
            event matches Event::Setup(p) ==> (spec_parse(p@) is None ==> (final(self).usb@
                == (UsbModel { ep0_stalled: true, ..old(self).usb@ }))),
            event matches Event::Setup(p) ==> (spec_parse(p@) matches Some(s) ==> ((spec_classify(
                s,
            ) == StandardRequest::GetStatus ==> (s.data matches ControlData::In(c)
                && final(self).usb@ == (UsbModel {
                sent: old(self).usb@.sent + tag_packets(
                    0x80,
                    respond_packets(seq![0u8, 0u8], c@),
                ),
                ..old(self).usb@
            }))) && (spec_classify(s) is GetDescriptor ==> (s.data matches ControlData::In(c)
                && (final(self).usb@ == (UsbModel { ep0_stalled: true, ..old(self).usb@ }) || (
            exists|d: Seq<u8>|
                #[trigger] respond_outcome(old(self).usb@, final(self).usb@, d, c@)))))
                && (spec_classify(s) matches StandardRequest::SetAddress { addr } ==> (s.data
                matches ControlData::Out(o) && (if o@.remaining == 0 {
                final(self).usb@ == (UsbModel {
                    address: addr,
                    sent: old(self).usb@.sent + status_in_packet(),
                    ..old(self).usb@
                })
            } else {
                final(self).usb@ == (UsbModel { ep0_stalled: true, ..old(self).usb@ })
            }))) && ((spec_classify(s) is SetConfiguration || spec_classify(s) is SetInterface)
                ==> (s.data matches ControlData::Out(o) && (if o@.remaining == 0 {
                exists|mid: UsbModel|
                    #[trigger] concluded_outcome(mid, final(self).usb@) && mid.in_flight == old(self).usb@.in_flight
            } else {
                final(self).usb@ == (UsbModel { ep0_stalled: true, ..old(self).usb@ })
            }))))),
    {
        match event {
            Event::Reset => {
                self.usb.configure_ep0();
                handler.handle_reset();
            },
            Event::Setup(p) => {
                match Setup::parse(p) {
                    Ok(s) => {
                        proof {
                            assert(Some(s) == spec_parse(p@));
                        }
                        let _token = handle_control_raw(handler, &mut self.usb, s);
                    },
                    Err(()) => {
                        self.usb.stall_ep0();
                    },
                }
            },
        }
    }
}


} // verus!
