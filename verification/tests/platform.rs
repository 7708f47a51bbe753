//! Pin arithmetic, port state, the endpoint descriptor bank and the PLL
//! limits.

use zeptos::rp;
use zeptos::samd;
use zeptos::usb::device::{ep_enabled_mask, EndpointBank, PacketSize, Usb};
use zeptos::Runtime;

#[test]
fn samd_pin_masks() {
    let pin = samd::IoPin { group: 0, pin: 25 };
    assert_eq!(pin.mask_32(), 1 << 25);
    assert_eq!(pin.mask_16(), 1 << 9);
    assert!(pin.hwsel());
    let low = samd::IoPin { group: 0, pin: 7 };
    assert_eq!(low.mask_16(), 1 << 7);
    assert!(!low.hwsel());
}

#[test]
fn samd_port_set_clear_toggle() {
    let mut port = samd::PortState::new();
    let pin = samd::IoPin { group: 1, pin: 30 };
    let other = samd::IoPin { group: 1, pin: 3 };
    pin.dirset(&mut port);
    other.dirset(&mut port);
    assert!(pin.read_dir(&port));
    pin.outset(&mut port);
    assert!(pin.read_out(&port));
    assert!(!other.read_out(&port));
    pin.outclr(&mut port);
    assert!(!pin.read_out(&port));
    pin.outtgl(&mut port);
    assert!(pin.read_out(&port));
    pin.outtgl(&mut port);
    assert!(!pin.read_out(&port));
    pin.dirclr(&mut port);
    assert!(!pin.read_dir(&port));
    assert!(other.read_dir(&port));
    other.dirtgl(&mut port);
    assert!(!other.read_dir(&port));
}

#[test]
fn rp_pin_math_and_sio() {
    let pin = rp::IoPin { pin: 25 };
    assert_eq!(pin.bank(), 0);
    assert_eq!(pin.pin_in_bank(), 25);
    assert_eq!(pin.mask(), 1 << 25);
    let qspi = rp::IoPin { pin: 33 };
    assert_eq!(qspi.bank(), 1);
    assert_eq!(qspi.pin_in_bank(), 1);

    let mut sio = rp::SioState::new();
    pin.oe_set(&mut sio);
    assert!(pin.read_oe(&sio));
    pin.out_set(&mut sio);
    assert!(pin.read_out(&sio));
    pin.out_clr(&mut sio);
    assert!(!pin.read_out(&sio));
    pin.oe_clr(&mut sio);
    assert!(!pin.read_oe(&sio));

    let mut ctrl = rp::PinCtrl { funcsel: 0 };
    pin.set_function(&mut ctrl, 5);
    assert_eq!(ctrl.funcsel, 5);
    pin.disable(&mut ctrl);
    assert_eq!(ctrl.funcsel, rp::FUNCSEL_NULL);
}

#[test]
fn pll_configs_of_the_clock_tree() {
    // the system PLL: 12 MHz / 1 * 125 / 6 / 2 = 125 MHz
    let sys = rp::PllConfig::validate(1, 125, 6, 2, rp::PLL_SYS_HZ);
    assert_eq!(sys.refdiv, 1);
    assert_eq!(sys.fbdiv, 125);
    assert_eq!(sys.post_div_1, 6);
    assert_eq!(sys.post_div_2, 2);
    // the USB PLL: 12 MHz / 1 * 100 / 5 / 5 = 48 MHz
    let usb = rp::PllConfig::validate(1, 100, 5, 5, rp::PLL_USB_HZ);
    assert_eq!(usb.fbdiv, 100);
}

#[test]
fn endpoint_masks_are_one_bit_per_address() {
    assert_eq!(ep_enabled_mask(0x00), 1 << 0);
    assert_eq!(ep_enabled_mask(0x80), 1 << 1);
    assert_eq!(ep_enabled_mask(0x01), 1 << 2);
    assert_eq!(ep_enabled_mask(0x81), 1 << 3);
    assert_eq!(ep_enabled_mask(0x0F), 1 << 30);
    assert_eq!(ep_enabled_mask(0x8F), 1 << 31);
}

#[test]
fn buffer_addresses_follow_the_packet_ram_layout() {
    let rt = Runtime::steal();
    let usb = Usb::new(rt);
    assert_eq!(usb.shared().buffer_address(0x00), 0x100);
    assert_eq!(usb.shared().buffer_address(0x80), 0x100);
    assert_eq!(usb.shared().buffer_address(0x01), 0x180);
    assert_eq!(usb.shared().buffer_address(0x81), 0x1C0);
    assert_eq!(usb.shared().buffer_address(0x02), 0x200);
}

#[test]
fn packet_size_codes_and_values() {
    assert_eq!(PacketSize::Size8.value(), 8);
    assert_eq!(PacketSize::Size16.value(), 16);
    assert_eq!(PacketSize::Size32.value(), 32);
    assert_eq!(PacketSize::Size64.value(), 64);
    assert_eq!(PacketSize::Size128.value(), 128);
    assert_eq!(PacketSize::Size256.value(), 256);
    assert_eq!(PacketSize::Size512.value(), 512);
    assert_eq!(PacketSize::Size1023.value(), 1023);
    assert_eq!(PacketSize::Size64.code(), 3);
}

#[test]
fn endpoint_bank_packs_and_reads_back() {
    let mut bank = EndpointBank::new();
    assert_eq!(bank.pcksize, 0);
    // a transmission stores the byte count in the low bits
    bank.prepare_in(PacketSize::Size64, 0x2000_0000, 100);
    assert_eq!(bank.addr, 0x2000_0000);
    assert_eq!(bank.pcksize, 100 | (3 << 28));
    assert_eq!(bank.out_len(), 100);
    // a reception stores the buffer size above the count field, which the
    // hardware then fills in
    bank.prepare_out(PacketSize::Size64, 0x2000_0040, 128);
    assert_eq!(bank.pcksize, (128 << 14) | (3 << 28));
    assert_eq!(bank.out_len(), 0);
}
