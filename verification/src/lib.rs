//! A verified model of a tiny cooperative async runtime for small
//! single-core microcontrollers.
//!
//! The runtime polls a fixed set of statically allocated tasks from a single
//! low-priority software-exception context.  Interrupt handlers never poll
//! tasks; they only enqueue wakeups on a lock-free run queue and pend the
//! executor exception.  On top of the executor sit a one-shot
//! interrupt-to-task signal, a monotonic timer service keeping a sorted
//! deadline list, and a USB device engine (control-transfer dispatcher,
//! endpoint configuration, bulk/interrupt transfers).
//!
//! Everything the runtime decides — queue and lifecycle transitions, the
//! wrap-aware clock order, deadline-list maintenance, setup-packet parsing,
//! control-request dispatch, packetization, endpoint ownership — is ordinary
//! code with contracts here.  The hardware itself (registers, the real
//! interrupt controller) stays outside: interrupt arrivals, bus events and
//! received packets enter these functions as plain values, and the contracts
//! state what the runtime does for every such value.

use vstd::prelude::*;

pub mod executor;
pub mod rp;
pub mod runqueue;
pub mod samd;
pub mod time;
pub mod usb;

verus! {

/// A token whose possession proves that the holder is executing in task
/// context: the single software-exception priority where all task bodies run.
///
/// The token is deliberately trivial to copy but can only enter the system
/// through [`Runtime::steal`], which callers invoke exactly where the
/// execution environment guarantees task context (the executor hands it to
/// the entry task).
#[derive(Clone, Copy)]
pub struct Runtime {
    witness: bool,
}

impl Runtime {
    /// Assert that the caller is running in task context and obtain the token.
    pub fn steal() -> Runtime {
        Runtime { witness: true }
    }
}

/// Exclusive access to the peripherals the runtime drives, handed to the
/// entry task by platform initialization.
pub struct Hardware {
    /// The USB device peripheral.
    pub usb: usb::device::Usb,
}

impl Hardware {
    /// The peripherals in their just-initialized state.
    pub fn new(rt: Runtime) -> (hw: Hardware)
        ensures
            hw.usb.usb@ == (usb::device::UsbModel {
                address: 0,
                enabled: false,
                attached: false,
                ep0_stalled: false,
                ep_owned: usb::device::spec_ep_mask(0x00) | usb::device::spec_ep_mask(0x80),
                ep_active: 0,
                in_flight: 0,
                sent: Seq::<(u8, Seq<u8>)>::empty(),
                host_out: Seq::<(u8, Seq<u8>)>::empty(),
            }),
    {
        Hardware { usb: usb::device::Usb::new(rt) }
    }
}

/// A programmer-contract violation: a condition the runtime treats as a bug
/// in the application, never as a recoverable state.  The checked entry
/// points report these; the unchecked ones exclude them by precondition.
#[derive(Clone, Copy, PartialEq, Eq, Structural, Debug)]
pub enum Fault {
    /// A task attempted to cancel a cell that is being polled on the
    /// current stack (a task cancelling itself through its own handle).
    CancelWhilePolling,
    /// A second task subscribed to a signal that already has a distinct
    /// subscriber.
    SignalBusy,
    /// An endpoint address was claimed while some endpoint object already
    /// owns it.
    EndpointInUse,
}

} // verus!
