//! RP2040 pin arithmetic, the single-cycle I/O state it drives, and the
//! PLL parameter validation of the clock bring-up.

use vstd::prelude::*;

verus! {

/// The crystal oscillator frequency.
pub const XOSC_HZ: u32 = 12_000_000;

/// The system PLL output frequency.
pub const PLL_SYS_HZ: u32 = 125_000_000;

/// The USB PLL output frequency.
pub const PLL_USB_HZ: u32 = 48_000_000;

/// The reference clock: fed straight from the crystal.
pub const CLK_REF_HZ: u32 = 12_000_000;

/// The system clock: fed from the system PLL.
pub const CLK_SYS_HZ: u32 = 125_000_000;

/// The peripheral clock: fed from the USB PLL.
pub const CLK_PERI_HZ: u32 = 48_000_000;

/// The function-select code that disconnects a pin.
pub const FUNCSEL_NULL: u8 = 31;

/// A dynamically identified I/O pin.
#[derive(Clone, Copy, PartialEq, Eq, Structural)]
pub struct IoPin {
    /// The pin number; the user bank holds pins 0 to 29, the QSPI bank the
    /// rest.
    pub pin: u8,
}

/// The single-cycle I/O state of one pin bank: output levels and output
/// enables, one bit per pin.
pub struct SioState {
    /// Output levels.
    pub out: u32,
    /// Output enables.
    pub oe: u32,
}

impl SioState {
    /// A bank with every pin low and disabled.
    pub fn new() -> (s: SioState)
        ensures
            s.out == 0,
            s.oe == 0,
    {
        SioState { out: 0, oe: 0 }
    }
}

/// The pad control state of one pin: its function-select code.
pub struct PinCtrl {
    /// The selected function; 31 disconnects the pin.
    pub funcsel: u8,
}

impl IoPin {
    /// Which bank the pin lives in: 0 for the user bank, 1 for QSPI.
    pub fn bank(&self) -> (r: usize)
        ensures
            r == self.pin >> 5,
    {
        (self.pin >> 5) as usize
    }

    /// The pin's index within its bank.
    pub fn pin_in_bank(&self) -> (r: usize)
        ensures
            r == self.pin & 0x1f,
    {
        (self.pin & 0x1f) as usize
    }

    /// The pin's bit in its bank's 32-bit registers.
    pub fn mask(&self) -> (r: u32)
        ensures
            r == 1u32 << ((self.pin & 0x1f) as u32),
    {
        proof {
            let p = self.pin;
            assert((p & 0x1f) < 32) by (bit_vector);
        }
        1u32 << ((self.pin & 0x1f) as u32)
    }

    /// Route the pin to the given peripheral function.
    pub fn set_function(&self, ctrl: &mut PinCtrl, funcsel: u8)
        ensures
            final(ctrl).funcsel == funcsel,
    {
        ctrl.funcsel = funcsel;
    }

    /// Disconnect the pin from every peripheral.
    pub fn disable(&self, ctrl: &mut PinCtrl)
        ensures
            final(ctrl).funcsel == FUNCSEL_NULL,
    {
        ctrl.funcsel = FUNCSEL_NULL;
    }

    /// Drive the pin high through the output-set register.
    pub fn out_set(&self, sio: &mut SioState)
        ensures
            final(sio).out == old(sio).out | (1u32 << ((self.pin & 0x1f) as u32)),
            final(sio).oe == old(sio).oe,
    {
        let m = self.mask();
        sio.out = sio.out | m;
    }

    /// Drive the pin low through the output-clear register.
    pub fn out_clr(&self, sio: &mut SioState)
        ensures
            final(sio).out == old(sio).out & !(1u32 << ((self.pin & 0x1f) as u32)),
            final(sio).oe == old(sio).oe,
    {
        let m = self.mask();
        sio.out = sio.out & !m;
    }

    /// Enable the pin's output driver.
    pub fn oe_set(&self, sio: &mut SioState)
        ensures
            final(sio).oe == old(sio).oe | (1u32 << ((self.pin & 0x1f) as u32)),
            final(sio).out == old(sio).out,
    {
        let m = self.mask();
        sio.oe = sio.oe | m;
    }

    /// Disable the pin's output driver.
    pub fn oe_clr(&self, sio: &mut SioState)
        ensures
            final(sio).oe == old(sio).oe & !(1u32 << ((self.pin & 0x1f) as u32)),
            final(sio).out == old(sio).out,
    {
        let m = self.mask();
        sio.oe = sio.oe & !m;
    }

    /// Read the pin's driven level back from the output word.
    pub fn read_out(&self, sio: &SioState) -> (r: bool)
        ensures
            r == (sio.out & (1u32 << ((self.pin & 0x1f) as u32)) != 0),
    {
        let m = self.mask();
        sio.out & m != 0
    }

    /// Read whether the pin's output driver is enabled.
    pub fn read_oe(&self, sio: &SioState) -> (r: bool)
        ensures
            r == (sio.oe & (1u32 << ((self.pin & 0x1f) as u32)) != 0),
    {
        let m = self.mask();
        sio.oe & m != 0
    }
}

/// Divider settings for one PLL, checked against the hardware's limits.
pub struct PllConfig {
    /// Reference divider, 1 to 63.
    pub refdiv: u8,
    /// Feedback divider, 16 to 320.
    pub fbdiv: u16,
    /// First post-divider, 1 to 7.
    pub post_div_1: u8,
    /// Second post-divider, 1 to 7.
    pub post_div_2: u8,
}

impl PllConfig {
    /// Check a divider selection against the PLL's electrical limits and
    /// the requested output frequency.  The preconditions are exactly the
    /// conditions the hardware manual imposes: divider ranges, reference
    /// frequency at least 5 MHz, VCO between 750 MHz and 1.8 GHz, and the
    /// post-divided VCO hitting `out_hz` exactly.
    pub fn validate(refdiv: u8, fbdiv: u16, post_div_1: u8, post_div_2: u8, out_hz: u32) -> (r:
        PllConfig)
        requires
            16 <= fbdiv <= 320,
            1 <= post_div_1 <= 7,
            1 <= post_div_2 <= 7,
            1 <= refdiv <= 63,
            5_000_000 <= XOSC_HZ as int / refdiv as int,
            750_000_000 <= (XOSC_HZ as int / refdiv as int) * fbdiv <= 1_800_000_000,
            (XOSC_HZ as int / refdiv as int) * fbdiv / post_div_1 as int / post_div_2 as int
                == out_hz,
        ensures
            r.refdiv == refdiv,
            r.fbdiv == fbdiv,
            r.post_div_1 == post_div_1,
            r.post_div_2 == post_div_2,
    {
        PllConfig { refdiv, fbdiv, post_div_1, post_div_2 }
    }
}

} // verus!
