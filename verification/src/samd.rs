//! SAM D pin arithmetic and the I/O port state it drives.
//!
//! A pin is named by its group and its index within the group.  The port
//! hardware exposes set/clear/toggle registers for the output and direction
//! words; here those words are the state, and each register write is a
//! verified bit operation on them.

use vstd::prelude::*;

verus! {

/// The core clock frequency the supported clock trees configure.
pub const CLOCK_HZ: u32 = 48_000_000;

/// A dynamically identified I/O pin: port group and pin index.
#[derive(Clone, Copy, PartialEq, Eq, Structural)]
pub struct IoPin {
    /// The port group the pin belongs to.
    pub group: u8,
    /// The pin index within its group, below 32.
    pub pin: u8,
}

/// One port group's software-visible state: the output word and the
/// direction word.
pub struct PortState {
    /// Output levels, one bit per pin.
    pub out: u32,
    /// Direction bits, set for output pins.
    pub dir: u32,
}

impl PortState {
    /// A port with every pin low and configured as input.
    pub fn new() -> (p: PortState)
        ensures
            p.out == 0,
            p.dir == 0,
    {
        PortState { out: 0, dir: 0 }
    }
}

impl IoPin {
    /// The pin's bit in the 32-bit port registers.
    pub fn mask_32(&self) -> (r: u32)
        requires
            self.pin < 32,
        ensures
            r == 1u32 << (self.pin as u32),
    {
        1u32 << (self.pin as u32)
    }

    /// The pin's bit in the 16-bit half-port write-config register.
    pub fn mask_16(&self) -> (r: u16)
        ensures
            r == 1u16 << ((self.pin & 0xF) as u16),
    {
        proof {
            let p = self.pin;
            assert((p & 0xF) < 16) by (bit_vector);
        }
        1u16 << ((self.pin & 0xF) as u16)
    }

    /// Which half of the port the write-config register addresses: the
    /// upper half for pins 16 and above.
    pub fn hwsel(&self) -> (r: bool)
        ensures
            r == (self.pin & 0x10 != 0),
    {
        self.pin & 0x10 != 0
    }

    /// Drive the pin high through the output-set register.
    pub fn outset(&self, port: &mut PortState)
        requires
            self.pin < 32,
        ensures
            final(port).out == old(port).out | (1u32 << (self.pin as u32)),
            final(port).dir == old(port).dir,
    {
        let m = self.mask_32();
        port.out = port.out | m;
    }

    /// Drive the pin low through the output-clear register.
    pub fn outclr(&self, port: &mut PortState)
        requires
            self.pin < 32,
        ensures
            final(port).out == old(port).out & !(1u32 << (self.pin as u32)),
            final(port).dir == old(port).dir,
    {
        let m = self.mask_32();
        port.out = port.out & !m;
    }

    /// Toggle the pin through the output-toggle register.
    pub fn outtgl(&self, port: &mut PortState)
        requires
            self.pin < 32,
        ensures
            final(port).out == old(port).out ^ (1u32 << (self.pin as u32)),
            final(port).dir == old(port).dir,
    {
        let m = self.mask_32();
        port.out = port.out ^ m;
    }

    /// Make the pin an output through the direction-set register.
    pub fn dirset(&self, port: &mut PortState)
        requires
            self.pin < 32,
        ensures
            final(port).dir == old(port).dir | (1u32 << (self.pin as u32)),
            final(port).out == old(port).out,
    {
        let m = self.mask_32();
        port.dir = port.dir | m;
    }

    /// Make the pin an input through the direction-clear register.
    pub fn dirclr(&self, port: &mut PortState)
        requires
            self.pin < 32,
        ensures
            final(port).dir == old(port).dir & !(1u32 << (self.pin as u32)),
            final(port).out == old(port).out,
    {
        let m = self.mask_32();
        port.dir = port.dir & !m;
    }

    /// Toggle the pin's direction through the direction-toggle register.
    pub fn dirtgl(&self, port: &mut PortState)
        requires
            self.pin < 32,
        ensures
            final(port).dir == old(port).dir ^ (1u32 << (self.pin as u32)),
            final(port).out == old(port).out,
    {
        let m = self.mask_32();
        port.dir = port.dir ^ m;
    }

    /// Read the pin's driven level back from the output word.
    pub fn read_out(&self, port: &PortState) -> (r: bool)
        requires
            self.pin < 32,
        ensures
            r == (port.out & (1u32 << (self.pin as u32)) != 0),
    {
        let m = self.mask_32();
        port.out & m != 0
    }

    /// Read whether the pin is configured as an output.
    pub fn read_dir(&self, port: &PortState) -> (r: bool)
        requires
            self.pin < 32,
        ensures
            r == (port.dir & (1u32 << (self.pin as u32)) != 0),
    {
        let m = self.mask_32();
        port.dir & m != 0
    }
}

/// Setting a pin drives exactly that pin high, leaving every other pin as
/// it was; clearing it afterwards puts the earlier level back.  The same
/// word algebra backs the direction registers.
pub proof fn lemma_pin_set_clear(out: u32, pin: u32, other: u32)
    requires
        pin < 32,
        other < 32,
        other != pin,
    ensures
        (out | (1u32 << pin)) & (1u32 << pin) != 0,
        ((out | (1u32 << pin)) & !(1u32 << pin)) & (1u32 << pin) == 0,
        (out | (1u32 << pin)) & (1u32 << other) == out & (1u32 << other),
        (out & !(1u32 << pin)) & (1u32 << other) == out & (1u32 << other),
{
    assert(pin < 32 && other < 32 && other != pin ==> {
        &&& (out | (1u32 << pin)) & (1u32 << pin) != 0
        &&& ((out | (1u32 << pin)) & !(1u32 << pin)) & (1u32 << pin) == 0
        &&& (out | (1u32 << pin)) & (1u32 << other) == out & (1u32 << other)
        &&& (out & !(1u32 << pin)) & (1u32 << other) == out & (1u32 << other)
    }) by (bit_vector);
}


/// The peripheral-multiplexer state of one pin: which alternate function
/// is selected, and whether the multiplexer is engaged at all.
pub struct PinCfg {
    /// The selected alternate function.
    pub pmux: u8,
    /// Whether the pin is routed to the peripheral rather than to I/O.
    pub pmuxen: bool,
}

impl IoPin {
    /// Route the pin to an alternate peripheral function through the
    /// write-config register.
    pub fn set_alternate(&self, cfg: &mut PinCfg, pmux: u8)
        ensures
            final(cfg).pmux == pmux,
            final(cfg).pmuxen,
    {
        cfg.pmux = pmux;
        cfg.pmuxen = true;
    }

    /// Return the pin to plain I/O, disengaging the multiplexer.
    pub fn set_io(&self, cfg: &mut PinCfg)
        ensures
            final(cfg).pmux == 0,
            !final(cfg).pmuxen,
    {
        cfg.pmux = 0;
        cfg.pmuxen = false;
    }
}

} // verus!
