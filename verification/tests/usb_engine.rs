//! Setup parsing, control dispatch, endpoints and transfer scenarios.

use zeptos::executor::Interrupt;
use zeptos::runqueue::RunQueue;
use zeptos::time::{Instant, Timers};
use zeptos::usb::descriptors::DescriptorBuilder;
use zeptos::usb::device::{ep_enabled_mask, Usb, UsbShared};
use zeptos::usb::{
    classify, handle_control_raw, ControlData, ControlType, DefaultHandler, Endpoints, Event,
    Handler, Recipient, Responded, Setup, StandardRequest, UsbBuffer,
};
use zeptos::{Fault, Runtime};

#[test]
fn parse_reads_all_fields() {
    // GET_DESCRIPTOR(DEVICE), device-to-host, standard, to the device
    let s = Setup::parse([0x80, 6, 0x00, 0x01, 0x09, 0x04, 18, 0]).unwrap();
    assert_eq!(s.ty, ControlType::Standard);
    assert_eq!(s.recipient, Recipient::Device);
    assert_eq!(s.request, 6);
    assert_eq!(s.value, 0x0100);
    assert_eq!(s.index, 0x0409);
    match s.data {
        ControlData::In(d) => assert_eq!(d.length(), 18),
        ControlData::Out(_) => panic!("direction bit says IN"),
    }
}

#[test]
fn parse_reads_out_direction() {
    let s = Setup::parse([0x40, 0x03, 0x34, 0x12, 0x78, 0x56, 4, 0]).unwrap();
    assert_eq!(s.ty, ControlType::Vendor);
    match s.data {
        ControlData::Out(d) => {
            assert_eq!(d.len(), 4);
            assert_eq!(d.remaining(), 4);
        },
        ControlData::In(_) => panic!("direction bit says OUT"),
    }
}

#[test]
fn parse_rejects_malformed_packets() {
    // reserved control type (both type bits set)
    assert!(Setup::parse([0x60, 0, 0, 0, 0, 0, 0, 0]).is_err());
    // unknown recipient code
    assert!(Setup::parse([0x04, 0, 0, 0, 0, 0, 0, 0]).is_err());
    // a plain vendor request is fine
    assert!(Setup::parse([0x40, 0, 0, 0, 0, 0, 0, 0]).is_ok());
}

#[test]
fn classify_matches_the_dispatch_table() {
    let get_status = Setup::parse([0x80, 0, 0, 0, 0, 0, 2, 0]).unwrap();
    assert_eq!(classify(&get_status), StandardRequest::GetStatus);

    let get_descriptor = Setup::parse([0x80, 6, 2, 0x02, 0, 0, 9, 0]).unwrap();
    assert_eq!(
        classify(&get_descriptor),
        StandardRequest::GetDescriptor { kind: 2, index: 2, lang: 0 }
    );

    let set_address = Setup::parse([0x00, 5, 5, 0, 0, 0, 0, 0]).unwrap();
    assert_eq!(classify(&set_address), StandardRequest::SetAddress { addr: 5 });

    let set_configuration = Setup::parse([0x00, 9, 1, 0, 0, 0, 0, 0]).unwrap();
    assert_eq!(classify(&set_configuration), StandardRequest::SetConfiguration { value: 1 });

    let set_interface = Setup::parse([0x01, 11, 1, 0, 2, 0, 0, 0]).unwrap();
    assert_eq!(classify(&set_interface), StandardRequest::SetInterface { intf: 2, alt: 1 });

    // a standard OUT GET_STATUS code is not the GET_STATUS arm
    let other = Setup::parse([0x00, 0, 0, 0, 0, 0, 0, 0]).unwrap();
    assert_eq!(classify(&other), StandardRequest::Other);

    let vendor = Setup::parse([0xC0, 0x03, 0, 0, 0, 0, 16, 0]).unwrap();
    assert_eq!(classify(&vendor), StandardRequest::Other);
}

/// A test device: a fixed device descriptor, a vendor echo register, and a
/// single accepted configuration.
struct EchoDevice {
    device_descriptor: Vec<u8>,
    echo: Vec<u8>,
    resets: usize,
}

impl EchoDevice {
    fn new() -> EchoDevice {
        let children: Vec<Vec<u8>> = Vec::new();
        let device = zeptos::usb::descriptors::Device {
            bcdUSB: 0x0201,
            bDeviceClass: 0xFF,
            bDeviceSubClass: 0,
            bDeviceProtocol: 0,
            bMaxPacketSize0: 64,
            idVendor: 0x59E3,
            idProduct: 0x00AA,
            bcdDevice: 0,
            iManufacturer: 1,
            iProduct: 2,
            iSerialNumber: 3,
            bNumConfigurations: 1,
        };
        EchoDevice {
            device_descriptor: device.bytes(&children),
            echo: vec![0u8; 16],
            resets: 0,
        }
    }
}

impl Handler for EchoDevice {
    fn handle_reset(&mut self) {
        self.resets += 1;
    }

    fn get_descriptor(
        &mut self,
        kind: u8,
        index: u8,
        _lang: u16,
        _builder: &mut DescriptorBuilder,
    ) -> Option<Vec<u8>> {
        match (kind, index) {
            (1, 0) => Some(self.device_descriptor.clone()),
            (3, 0) => Some(zeptos::usb::descriptors::language_list_us_english()),
            _ => None,
        }
    }

    fn set_configuration(
        &mut self,
        cfg: u8,
        _usb: &mut UsbShared,
        _endpoints: &mut Endpoints,
    ) -> Result<(), ()> {
        if cfg == 1 {
            Ok(())
        } else {
            Err(())
        }
    }

    fn set_interface(
        &mut self,
        _intf: u8,
        _alt: u8,
        _usb: &mut UsbShared,
        _endpoints: &mut Endpoints,
    ) -> Result<(), ()> {
        Err(())
    }

    fn handle_control(&mut self, usb: &mut UsbShared, req: Setup) -> Responded {
        if req.ty == ControlType::Vendor && req.request == 0x03 {
            match req.data {
                ControlData::Out(mut data) => {
                    let payload = data.receive(usb);
                    let n = payload.len().min(12);
                    self.echo[0..2].copy_from_slice(&req.value.to_le_bytes());
                    self.echo[2..4].copy_from_slice(&req.index.to_le_bytes());
                    self.echo[4..4 + n].copy_from_slice(&payload[..n]);
                    if data.remaining() != 0 {
                        return data.reject(usb);
                    }
                    data.accept(usb)
                },
                ControlData::In(data) => {
                    let echo = self.echo.clone();
                    data.respond(usb, &echo)
                },
            }
        } else {
            req.reject(usb)
        }
    }
}

#[test]
fn enumeration_returns_the_device_descriptor_and_sets_the_address() {
    let rt = Runtime::steal();
    let mut usb = Usb::new(rt);
    let mut handler = EchoDevice::new();
    usb.run_device();
    assert!(usb.shared().is_enabled());
    assert!(usb.shared().is_attached());

    // bus reset re-arms endpoint 0 and notifies the handler
    usb.run_device_step(&mut handler, Event::Reset);
    assert_eq!(handler.resets, 1);
    assert!(!usb.shared().ep0_is_stalled());

    // GET_DESCRIPTOR(DEVICE): the compiled descriptor comes back in one
    // 18-byte packet on endpoint 0 IN
    usb.run_device_step(&mut handler, Event::Setup([0x80, 6, 0, 1, 0, 0, 18, 0]));
    assert_eq!(usb.shared().sent_count(), 1);
    let (ep, packet) = usb.shared().sent_packet(0);
    assert_eq!(ep, 0x80);
    assert_eq!(packet, handler.device_descriptor);

    // SET_ADDRESS(5): the status phase is acknowledged, then the address set
    usb.run_device_step(&mut handler, Event::Setup([0x00, 5, 5, 0, 0, 0, 0, 0]));
    assert_eq!(usb.shared().address(), 5);
    let (ep, packet) = usb.shared().sent_packet(1);
    assert_eq!(ep, 0x80);
    assert!(packet.is_empty());
    assert!(!usb.shared().ep0_is_stalled());
}

#[test]
fn get_status_answers_two_zero_bytes() {
    let rt = Runtime::steal();
    let mut usb = Usb::new(rt);
    let mut handler = EchoDevice::new();
    usb.run_device_step(&mut handler, Event::Setup([0x80, 0, 0, 0, 0, 0, 2, 0]));
    assert_eq!(usb.shared().sent_count(), 1);
    let (ep, packet) = usb.shared().sent_packet(0);
    assert_eq!(ep, 0x80);
    assert_eq!(packet, vec![0u8, 0u8]);
}

#[test]
fn malformed_setup_stalls_endpoint_zero() {
    let rt = Runtime::steal();
    let mut usb = Usb::new(rt);
    let mut handler = EchoDevice::new();
    usb.run_device_step(&mut handler, Event::Setup([0x60, 0, 0, 0, 0, 0, 0, 0]));
    assert!(usb.shared().ep0_is_stalled());
    assert_eq!(usb.shared().sent_count(), 0);
}

#[test]
fn every_request_concludes_exactly_once() {
    let rt = Runtime::steal();
    let mut usb = Usb::new(rt);
    let mut handler = EchoDevice::new();

    // an accepted configuration concludes by the status phase, not a stall
    let s = Setup::parse([0x00, 9, 1, 0, 0, 0, 0, 0]).unwrap();
    let _token: Responded = handle_control_raw(&mut handler, &mut usb.usb, s);
    assert!(!usb.shared().ep0_is_stalled());
    assert_eq!(usb.shared().sent_count(), 1);

    // a refused configuration concludes by a stall, sending nothing
    let s = Setup::parse([0x00, 9, 2, 0, 0, 0, 0, 0]).unwrap();
    let _token: Responded = handle_control_raw(&mut handler, &mut usb.usb, s);
    assert!(usb.shared().ep0_is_stalled());
    assert_eq!(usb.shared().sent_count(), 1);

    // an unknown descriptor concludes by a stall
    usb.usb.configure_ep0();
    let s = Setup::parse([0x80, 6, 0, 0x22, 0, 0, 9, 0]).unwrap();
    let _token: Responded = handle_control_raw(&mut handler, &mut usb.usb, s);
    assert!(usb.shared().ep0_is_stalled());
    assert_eq!(usb.shared().sent_count(), 1);

    // a refused alternate setting concludes by a stall
    usb.usb.configure_ep0();
    let s = Setup::parse([0x01, 11, 1, 0, 0, 0, 0, 0]).unwrap();
    let _token: Responded = handle_control_raw(&mut handler, &mut usb.usb, s);
    assert!(usb.shared().ep0_is_stalled());

    // an unknown vendor request concludes by the handler's reject
    usb.usb.configure_ep0();
    let s = Setup::parse([0xC0, 0x55, 0, 0, 0, 0, 0, 0]).unwrap();
    let _token: Responded = handle_control_raw(&mut handler, &mut usb.usb, s);
    assert!(usb.shared().ep0_is_stalled());
}

#[test]
fn vendor_echo_stores_and_returns_the_request() {
    let rt = Runtime::steal();
    let mut usb = Usb::new(rt);
    let mut handler = EchoDevice::new();

    // the host queues the 4-byte OUT payload, then the vendor OUT request
    usb.usb.host_queue_out(0, vec![0xA1, 0xB2, 0xC3, 0xD4]);
    usb.run_device_step(&mut handler, Event::Setup([0x40, 0x03, 0x34, 0x12, 0x78, 0x56, 4, 0]));
    assert!(!usb.shared().ep0_is_stalled());
    // the echo register holds value, index, then the payload
    assert_eq!(
        handler.echo,
        vec![0x34, 0x12, 0x78, 0x56, 0xA1, 0xB2, 0xC3, 0xD4, 0, 0, 0, 0, 0, 0, 0, 0]
    );
    // the status phase acknowledged the OUT request
    let (ep, packet) = usb.shared().sent_packet(0);
    assert_eq!(ep, 0x80);
    assert!(packet.is_empty());

    // the subsequent vendor IN returns the same bytes
    usb.run_device_step(&mut handler, Event::Setup([0xC0, 0x03, 0, 0, 0, 0, 16, 0]));
    let (ep, packet) = usb.shared().sent_packet(1);
    assert_eq!(ep, 0x80);
    assert_eq!(
        packet,
        vec![0x34, 0x12, 0x78, 0x56, 0xA1, 0xB2, 0xC3, 0xD4, 0, 0, 0, 0, 0, 0, 0, 0]
    );
}

#[test]
fn claiming_an_endpoint_twice_is_a_fault() {
    let rt = Runtime::steal();
    let mut usb = Usb::new(rt);
    let endpoints = Endpoints {};
    let ep = endpoints.try_claim(&mut usb.usb, 0x81).unwrap();
    assert_eq!(ep.ep, 0x81);
    // the same address cannot be claimed again while the object lives
    match endpoints.try_claim(&mut usb.usb, 0x81) {
        Err(f) => assert_eq!(f, Fault::EndpointInUse),
        Ok(_) => panic!("double claim must be refused"),
    }
    // endpoint 0 is owned by the control pipe from the start
    match endpoints.try_claim(&mut usb.usb, 0x80) {
        Err(f) => assert_eq!(f, Fault::EndpointInUse),
        Ok(_) => panic!("endpoint 0 is owned by the control pipe"),
    }
    // releasing the object frees the address for a new claim
    ep.release(&mut usb.usb);
    assert!(endpoints.try_claim(&mut usb.usb, 0x81).is_ok());
}

#[test]
fn cancelled_transfer_leaves_the_endpoint_idle() {
    let rt = Runtime::steal();
    let mut usb = Usb::new(rt);
    let endpoints = Endpoints {};
    let mut ep_out = endpoints.try_claim(&mut usb.usb, 0x03).unwrap();
    let owned_before = usb.shared().owned_mask();
    let active_before = usb.shared().active_mask();

    // a transfer starts, then its future is dropped mid-flight
    usb.usb.begin_transfer(0x03);
    assert_ne!(usb.shared().in_flight_mask() & ep_enabled_mask(0x03), 0);
    usb.usb.cancel_transfer(0x03);

    // the endpoint is idle and the ownership bitmap unchanged
    assert_eq!(usb.shared().in_flight_mask() & ep_enabled_mask(0x03), 0);
    assert_eq!(usb.shared().owned_mask(), owned_before);
    assert_eq!(usb.shared().active_mask(), active_before);
    assert_eq!(usb.shared().sent_count(), 0);

    // a subsequent transfer on the same endpoint proceeds normally
    usb.usb.host_queue_out(0x03, vec![7u8; 10]);
    let mut buf: UsbBuffer<64> = UsbBuffer::new();
    let len = ep_out.receive(&mut usb.usb, &mut buf);
    assert_eq!(len, 10);
}

#[test]
fn bulk_loopback_echoes_the_packet() {
    let rt = Runtime::steal();
    let mut usb = Usb::new(rt);
    let endpoints = Endpoints {};
    let mut ep_out = endpoints.try_claim(&mut usb.usb, 0x03).unwrap();
    let mut ep_in = endpoints.try_claim(&mut usb.usb, 0x83).unwrap();

    // the host sends one full 64-byte OUT packet
    let payload: Vec<u8> = (0..64u8).collect();
    usb.usb.host_queue_out(0x03, payload.clone());

    let mut buf: UsbBuffer<64> = UsbBuffer::new();
    let len = ep_out.receive(&mut usb.usb, &mut buf);
    assert_eq!(len, 64);
    assert_eq!(buf.bytes(), payload.as_slice());

    // the runtime echoes the same 64 bytes back on bulk IN
    ep_in.send(&mut usb.usb, &buf, len, false);
    assert_eq!(usb.shared().sent_count(), 1);
    let (ep, packet) = usb.shared().sent_packet(0);
    assert_eq!(ep, 0x83);
    assert_eq!(packet, payload);
}

#[test]
fn send_appends_zero_length_packet_on_request() {
    let rt = Runtime::steal();
    let mut usb = Usb::new(rt);
    let endpoints = Endpoints {};
    let mut ep_in = endpoints.try_claim(&mut usb.usb, 0x81).unwrap();
    let buf: UsbBuffer<128> = UsbBuffer::new();

    // 100 bytes split into a full packet and a short one; no terminator
    ep_in.send(&mut usb.usb, &buf, 100, true);
    assert_eq!(usb.shared().sent_count(), 2);
    assert_eq!(usb.shared().sent_packet(0).1.len(), 64);
    assert_eq!(usb.shared().sent_packet(1).1.len(), 36);

    // 128 bytes with the terminator requested: two full packets plus a
    // zero-length packet
    ep_in.send(&mut usb.usb, &buf, 128, true);
    assert_eq!(usb.shared().sent_count(), 5);
    assert_eq!(usb.shared().sent_packet(2).1.len(), 64);
    assert_eq!(usb.shared().sent_packet(3).1.len(), 64);
    assert_eq!(usb.shared().sent_packet(4).1.len(), 0);

    // 128 bytes without the terminator: the packets end on the boundary
    ep_in.send(&mut usb.usb, &buf, 128, false);
    assert_eq!(usb.shared().sent_count(), 7);
    assert_eq!(usb.shared().sent_packet(6).1.len(), 64);
}

#[test]
fn timeout_selects_the_timer_branch() {
    let rt = Runtime::steal();
    let mut q = RunQueue::new(1);
    let mut timers = Timers::new();
    let mut usb = Usb::new(rt);
    let endpoints = Endpoints {};
    let _ep_out = endpoints.try_claim(&mut usb.usb, 0x03).unwrap();

    // the task awaits min(endpoint receive, delay 10 ms): the receive arm
    // subscribes its signal and starts the hardware transfer, the timer arm
    // links its deadline
    let mut ep_signal = Interrupt::new();
    assert!(!ep_signal.until(false, 0));
    usb.usb.begin_transfer(0x03);
    let mut wait = rt.delay_us(&timers, 10_000);
    assert!(!wait.poll(&mut timers, 0));

    // no packet ever arrives; the tick at 10 ms wakes the task
    let mut fired_at: Option<u32> = None;
    while fired_at.is_none() {
        let next = timers.now().add_us(1000);
        timers.tick(next, &mut q);
        if q.is_linked(0) {
            fired_at = Some(timers.now().0);
        }
    }
    assert_eq!(fired_at, Some(10_000));

    // the executor drains and the task completes through the timer branch
    q.start_drain();
    assert_eq!(q.drain_next(), Some(0));
    assert!(wait.poll(&mut timers, 0));

    // dropping the select drops the in-flight receive: the abort sequence
    // leaves the endpoint idle, and the wait unlinks its deadline
    usb.usb.cancel_transfer(0x03);
    wait.unlink(&mut timers);
    assert_eq!(usb.shared().in_flight_mask(), 0);
    assert_eq!(timers.deadline_count(), 0);
    assert_eq!(usb.shared().sent_count(), 0);
}

#[test]
fn default_handler_answers_the_bare_minimum() {
    let rt = Runtime::steal();
    let mut usb = Usb::new(rt);
    let mut handler = DefaultHandler {};

    // configuration one is accepted with a status phase
    usb.run_device_step(&mut handler, Event::Setup([0x00, 9, 1, 0, 0, 0, 0, 0]));
    assert!(!usb.shared().ep0_is_stalled());
    assert_eq!(usb.shared().sent_count(), 1);

    // it offers no descriptors
    usb.run_device_step(&mut handler, Event::Setup([0x80, 6, 0, 1, 0, 0, 18, 0]));
    assert!(usb.shared().ep0_is_stalled());

    // and rejects vendor requests
    usb.usb.configure_ep0();
    usb.run_device_step(&mut handler, Event::Setup([0xC0, 0x20, 0, 0, 0, 0, 0, 0]));
    assert!(usb.shared().ep0_is_stalled());
    assert_eq!(usb.shared().sent_count(), 1);
}

#[test]
fn state_requests_with_a_data_phase_are_stalled() {
    let rt = Runtime::steal();
    let mut usb = Usb::new(rt);
    let mut handler = EchoDevice::new();

    // SET_ADDRESS announcing OUT data is malformed: stalled, address kept
    usb.run_device_step(&mut handler, Event::Setup([0x00, 5, 5, 0, 0, 0, 4, 0]));
    assert!(usb.shared().ep0_is_stalled());
    assert_eq!(usb.shared().address(), 0);
    assert_eq!(usb.shared().sent_count(), 0);

    // SET_CONFIGURATION announcing OUT data is stalled the same way
    usb.usb.configure_ep0();
    usb.run_device_step(&mut handler, Event::Setup([0x00, 9, 1, 0, 0, 0, 2, 0]));
    assert!(usb.shared().ep0_is_stalled());
    assert_eq!(usb.shared().sent_count(), 0);

    // SET_INTERFACE announcing OUT data likewise
    usb.usb.configure_ep0();
    usb.run_device_step(&mut handler, Event::Setup([0x01, 11, 0, 0, 0, 0, 1, 0]));
    assert!(usb.shared().ep0_is_stalled());
    assert_eq!(usb.shared().sent_count(), 0);
}
